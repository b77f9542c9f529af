//! The session aggregate: the editor, the message log and the result
//! table, together with the running flag and the input mode that decides
//! which of them the next key event reaches.

use vstd::prelude::*;

use crate::editor::Editor;
use crate::editor::buffer_wf;
use crate::editor::buffer_marked;
use crate::editor::empty_buffer;
use crate::message::Message;
use crate::table::Table;

verus! {

/// Which part of the session the next key event is dispatched to.
pub enum AppMode {
    Normal,
    Editor,
    Message,
    Table,
    Login,
}

/// One session's whole state.  `state` is the running flag: the driving
/// loop stops once it is false.
pub struct App {
    pub state: bool,
    pub mode: AppMode,
    pub editor: Editor,
    pub message: Message,
    pub table: Table,
}

impl App {
    /// A fresh session: running, in normal mode, with an empty editor,
    /// an empty message log and an empty table.
    pub fn new() -> (app: App)
        ensures
            app.state == true,
            app.mode == AppMode::Normal,
            app.editor@ == empty_buffer(),
            buffer_wf(app.editor@),
            buffer_marked(app.editor@),
            app.message.context@ == Seq::<String>::empty(),
            app.table.items@ == Seq::<Vec<String>>::empty(),
            app.table.headers@ == Seq::<String>::empty(),
    {
        App {
            state: true,
            mode: AppMode::Normal,
            editor: Editor::new(),
            message: Message::new(),
            table: Table::new(),
        }
    }

    /// Ask the driving loop to stop.
    pub fn quit(&mut self)
        ensures
            final(self).state == false,
            final(self).mode == old(self).mode,
            final(self).editor == old(self).editor,
            final(self).message == old(self).message,
            final(self).table == old(self).table,
    {
        self.state = false;
    }

    /// Switch the input mode; everything else stays as it is.
    pub fn change_mode(&mut self, mode: AppMode)
        ensures
            final(self).mode == mode,
            final(self).state == old(self).state,
            final(self).editor == old(self).editor,
            final(self).message == old(self).message,
            final(self).table == old(self).table,
    {
        self.mode = mode;
    }
}

} // verus!
