//! The application state and its per-key transition: the two lists, their
//! cursors, the active tab and the quit flag, together with the renderer
//! call that lays out one frame. The surrounding program only reads keys,
//! draws the returned rows, and moves the state file's text in and out.

use vstd::prelude::*;

verus! {

use crate::codec::Status;
use crate::ops::list_down;
use crate::ops::list_transfer;
use crate::ops::list_up;
use crate::ops::move_down_spec;
use crate::ops::move_up_spec;
use crate::ops::transfer_cursor_spec;
use crate::ops::transfer_dst_spec;
use crate::ops::transfer_src_spec;
use crate::ui::DrawCmd;
use crate::ui::Style;
use crate::ui::Ui;
use vstd::string::StringExecFns;

/// The whole in-memory model of a session: the two lists, one cursor each,
/// the active tab, and whether the quit key has been seen.
pub struct App {
    pub todos: Vec<String>,
    pub done: Vec<String>,
    pub todo_curr: usize,
    pub done_curr: usize,
    pub status: Status,
    pub quit: bool,
}

/// A snapshot of the application state, for contracts.
pub ghost struct AppView {
    pub todos: Seq<String>,
    pub done: Seq<String>,
    pub todo_curr: nat,
    pub done_curr: nat,
    pub status: Status,
    pub quit: bool,
}

impl View for App {
    type V = AppView;

    open spec fn view(&self) -> AppView {
        AppView {
            todos: self.todos@,
            done: self.done@,
            todo_curr: self.todo_curr as nat,
            done_curr: self.done_curr as nat,
            status: self.status,
            quit: self.quit,
        }
    }
}

impl AppView {
    /// The list of the active tab.
    pub open spec fn active_list(self) -> Seq<String> {
        match self.status {
            Status::Todo => self.todos,
            Status::Done => self.done,
        }
    }

    /// The cursor of the active tab.
    pub open spec fn active_cursor(self) -> nat {
        match self.status {
            Status::Todo => self.todo_curr,
            Status::Done => self.done_curr,
        }
    }
}

/// The state after one keypress: the quit key raises the quit flag, the
/// navigation keys move the active tab's cursor, the tab key switches tabs,
/// the confirm key transfers the selected item of the active list to the end
/// of the other list, and every other key changes nothing.
pub open spec fn step_spec(v: AppView, key: char) -> AppView {
    if key == 'q' {
        AppView { quit: true, ..v }
    } else if key == 'w' {
        match v.status {
            Status::Todo => AppView { todo_curr: move_up_spec(v.todos.len(), v.todo_curr), ..v },
            Status::Done => AppView { done_curr: move_up_spec(v.done.len(), v.done_curr), ..v },
        }
    } else if key == 's' {
        match v.status {
            Status::Todo => AppView { todo_curr: move_down_spec(v.todos.len(), v.todo_curr), ..v },
            Status::Done => AppView { done_curr: move_down_spec(v.done.len(), v.done_curr), ..v },
        }
    } else if key == '\t' {
        AppView { status: v.status.toggle_spec(), ..v }
    } else if key == '\n' {
        match v.status {
            Status::Todo => AppView {
                done: transfer_dst_spec(v.done, v.todos, v.todo_curr),
                todos: transfer_src_spec(v.todos, v.todo_curr),
                todo_curr: transfer_cursor_spec(v.todos, v.todo_curr),
                ..v
            },
            Status::Done => AppView {
                todos: transfer_dst_spec(v.todos, v.done, v.done_curr),
                done: transfer_src_spec(v.done, v.done_curr),
                done_curr: transfer_cursor_spec(v.done, v.done_curr),
                ..v
            },
        }
    } else {
        v
    }
}

impl AppView {
    /// The data model's cursor invariant: a cursor into a non-empty list is
    /// a valid index, and on an empty list it rests on row 0.
    pub open spec fn cursors_valid(self) -> bool {
        (if self.todos.len() == 0 {
            self.todo_curr == 0
        } else {
            self.todo_curr < self.todos.len()
        }) && (if self.done.len() == 0 {
            self.done_curr == 0
        } else {
            self.done_curr < self.done.len()
        })
    }
}

/// One keypress keeps both cursors inside their lists.
pub proof fn lemma_step_preserves_cursors(v: AppView, key: char)
    requires
        v.cursors_valid(),
    ensures
        step_spec(v, key).cursors_valid(),
{
}

impl App {
    /// A fresh session: both lists empty, both cursors on the first row, the
    /// todo tab active, not quitting yet.
    pub fn new() -> (app: App)
        ensures
            app@.todos == Seq::<String>::empty(),
            app@.done == Seq::<String>::empty(),
            app@.todo_curr == 0,
            app@.done_curr == 0,
            app@.status == Status::Todo,
            app@.quit == false,
    {
        App {
            todos: Vec::new(),
            done: Vec::new(),
            todo_curr: 0,
            done_curr: 0,
            status: Status::Todo,
            quit: false,
        }
    }

    /// Apply one keypress to the state.
    pub fn handle_key(&mut self, key: char)
        ensures
            final(self)@ == step_spec(old(self)@, key),
    {
        if key == 'q' {
            self.quit = true;
        } else if key == 'w' {
            match self.status {
                Status::Todo => list_up(&self.todos, &mut self.todo_curr),
                Status::Done => list_up(&self.done, &mut self.done_curr),
            }
        } else if key == 's' {
            match self.status {
                Status::Todo => list_down(&self.todos, &mut self.todo_curr),
                Status::Done => list_down(&self.done, &mut self.done_curr),
            }
        } else if key == '\t' {
            self.status = self.status.toggle();
        } else if key == '\n' {
            match self.status {
                Status::Todo => list_transfer(&mut self.done, &mut self.todos, &mut self.todo_curr),
                Status::Done => list_transfer(&mut self.todos, &mut self.done, &mut self.done_curr),
            }
        }
    }
}

/// The tab header: the active tab's name is bracketed.
pub open spec fn header_spec(st: Status) -> Seq<char> {
    match st {
        Status::Todo => "[TODO] DONE "@,
        Status::Done => " TODO [DONE]"@,
    }
}

/// The text of one list row: todo rows carry a movable marker that sits on
/// the selected row, done rows a fixed cross marker.
pub open spec fn row_text_spec(st: Status, selected: bool, item: Seq<char>) -> Seq<char> {
    match st {
        Status::Todo => if selected {
            " [-] "@ + item
        } else {
            " [ ] "@ + item
        },
        Status::Done => " [x] "@ + item,
    }
}

/// Lay out one frame: the tab header on row 0, a separator on row 1, then
/// every row of the active list in order, the selected row highlighted.
/// Returns the positioned text pieces for the terminal to draw; the list
/// scope opened on `ui` is closed again before returning.
pub fn render_frame(app: &App, ui: &mut Ui) -> (cmds: Vec<DrawCmd>)
    requires
        old(ui).list_curr is None,
        app@.active_list().len() <= usize::MAX - 2,
    ensures
        final(ui).list_curr is None,
        cmds@.len() == 2 + app@.active_list().len(),
        cmds@[0].row == 0 && cmds@[0].col == 0 && cmds@[0].text@ == header_spec(app@.status)
            && cmds@[0].style == Style::Regular,
        cmds@[1].row == 1 && cmds@[1].col == 0 && cmds@[1].text@ == "------------"@ && cmds@[1].style
            == Style::Regular,
        forall|i: int|
            0 <= i < app@.active_list().len() ==> (#[trigger] cmds@[2 + i]).row == 2 + i
                && cmds@[2 + i].col == 0 && cmds@[2 + i].text@ == row_text_spec(
                app@.status,
                i == app@.active_cursor(),
                app@.active_list()[i]@,
            ) && cmds@[2 + i].style == (if i == app@.active_cursor() {
                Style::Highlight
            } else {
                Style::Regular
            }),
{
    let mut cmds: Vec<DrawCmd> = Vec::new();
    ui.begin(0, 0);
    match app.status {
        Status::Todo => {
            let header = ui.label("[TODO] DONE ", Style::Regular);
            cmds.push(header);
            let sep = ui.label("------------", Style::Regular);
            cmds.push(sep);
            ui.begin_list(app.todo_curr);
            let mut index: usize = 0;
            while index < app.todos.len()
                invariant
                    app@.status == Status::Todo,
                    app@.active_list() == app.todos@,
                    app@.active_cursor() == app.todo_curr as nat,
                    app.todos@.len() <= usize::MAX - 2,
                    index <= app.todos.len(),
                    ui.list_curr == Some(app.todo_curr),
                    ui.row == 2 + index,
                    ui.col == 0,
                    cmds@.len() == 2 + index,
                    cmds@[0].row == 0 && cmds@[0].col == 0 && cmds@[0].text@ == header_spec(
                        app@.status,
                    ) && cmds@[0].style == Style::Regular,
                    cmds@[1].row == 1 && cmds@[1].col == 0 && cmds@[1].text@ == "------------"@
                        && cmds@[1].style == Style::Regular,
                    forall|i: int|
                        0 <= i < index ==> (#[trigger] cmds@[2 + i]).row == 2 + i && cmds@[2
                            + i].col == 0 && cmds@[2 + i].text@ == row_text_spec(
                            app@.status,
                            i == app@.active_cursor(),
                            app@.active_list()[i]@,
                        ) && cmds@[2 + i].style == (if i == app@.active_cursor() {
                            Style::Highlight
                        } else {
                            Style::Regular
                        }),
                decreases app.todos@.len() - index,
            {
                let mut text = if index == app.todo_curr {
                    " [-] ".to_owned()
                } else {
                    " [ ] ".to_owned()
                };
                text.append(app.todos[index].as_str());
                let row = ui.list_element(text.as_str(), index);
                cmds.push(row);
                index = index + 1;
            }
            ui.end_list();
        },
        Status::Done => {
            let header = ui.label(" TODO [DONE]", Style::Regular);
            cmds.push(header);
            let sep = ui.label("------------", Style::Regular);
            cmds.push(sep);
            ui.begin_list(app.done_curr);
            let mut index: usize = 0;
            while index < app.done.len()
                invariant
                    app@.status == Status::Done,
                    app@.active_list() == app.done@,
                    app@.active_cursor() == app.done_curr as nat,
                    app.done@.len() <= usize::MAX - 2,
                    index <= app.done.len(),
                    ui.list_curr == Some(app.done_curr),
                    ui.row == 2 + index,
                    ui.col == 0,
                    cmds@.len() == 2 + index,
                    cmds@[0].row == 0 && cmds@[0].col == 0 && cmds@[0].text@ == header_spec(
                        app@.status,
                    ) && cmds@[0].style == Style::Regular,
                    cmds@[1].row == 1 && cmds@[1].col == 0 && cmds@[1].text@ == "------------"@
                        && cmds@[1].style == Style::Regular,
                    forall|i: int|
                        0 <= i < index ==> (#[trigger] cmds@[2 + i]).row == 2 + i && cmds@[2
                            + i].col == 0 && cmds@[2 + i].text@ == row_text_spec(
                            app@.status,
                            i == app@.active_cursor(),
                            app@.active_list()[i]@,
                        ) && cmds@[2 + i].style == (if i == app@.active_cursor() {
                            Style::Highlight
                        } else {
                            Style::Regular
                        }),
                decreases app.done@.len() - index,
            {
                let mut text = " [x] ".to_owned();
                text.append(app.done[index].as_str());
                let row = ui.list_element(text.as_str(), index);
                cmds.push(row);
                index = index + 1;
            }
            ui.end_list();
        },
    }
    ui.end();
    cmds
}

} // verus!
