//! A minimal page navigator: three pages, a selection on each of the two
//! operation pages, and quitting.
use vstd::prelude::*;
use crate::tui::events::{Event, Key};
use crate::tui::state::AppState;

verus! {

/// The navigator's state.
pub struct App {
    pub should_quit: bool,
    pub state: AppState,
    pub db_selected: usize,
    pub vector_selected: usize,
}

/// The navigator's state, as a value.
pub struct NavView {
    pub should_quit: bool,
    pub state: AppState,
    pub db_selected: usize,
    pub vector_selected: usize,
}

impl View for App {
    type V = NavView;

    open spec fn view(&self) -> NavView {
        NavView {
            should_quit: self.should_quit,
            state: self.state,
            db_selected: self.db_selected,
            vector_selected: self.vector_selected,
        }
    }
}

impl NavView {
    pub open spec fn next_page(self) -> NavView {
        NavView {
            state: match self.state {
                AppState::Dashboard => AppState::Database,
                AppState::Database => AppState::VectorOperations,
                AppState::VectorOperations => AppState::VectorOperations,
            },
            ..self
        }
    }

    pub open spec fn previous_page(self) -> NavView {
        NavView {
            state: match self.state {
                AppState::Dashboard => AppState::Dashboard,
                AppState::Database => AppState::Dashboard,
                AppState::VectorOperations => AppState::Database,
            },
            ..self
        }
    }

    pub open spec fn select_previous(self) -> NavView {
        match self.state {
            AppState::Dashboard => self,
            AppState::Database => NavView {
                db_selected: if self.db_selected > 0 { (self.db_selected - 1) as usize } else { self.db_selected },
                ..self
            },
            AppState::VectorOperations => NavView {
                vector_selected: if self.vector_selected > 0 { (self.vector_selected - 1) as usize } else { self.vector_selected },
                ..self
            },
        }
    }

    /// Moves down; the database page has three operations, the vector page five.
    pub open spec fn select_next(self) -> NavView {
        match self.state {
            AppState::Dashboard => self,
            AppState::Database => NavView {
                db_selected: if self.db_selected < 2 { (self.db_selected + 1) as usize } else { self.db_selected },
                ..self
            },
            AppState::VectorOperations => NavView {
                vector_selected: if self.vector_selected < 4 { (self.vector_selected + 1) as usize } else { self.vector_selected },
                ..self
            },
        }
    }

    pub open spec fn key_step(self, key: Key) -> NavView {
        match key {
            Key::Char(c) => if c == 'q' { NavView { should_quit: true, ..self } } else { self },
            Key::Esc => NavView { should_quit: true, ..self },
            Key::Right | Key::Enter => self.next_page(),
            Key::Left => self.previous_page(),
            Key::Up => self.select_previous(),
            Key::Down => self.select_next(),
            _ => self,
        }
    }
}

impl Default for App {
    fn default() -> (r: Self)
        ensures
            r@ == (NavView { should_quit: false, state: AppState::Dashboard, db_selected: 0, vector_selected: 0 }),
    {
        App { should_quit: false, state: AppState::Dashboard, db_selected: 0, vector_selected: 0 }
    }
}

impl App {
    pub fn new() -> (r: Self)
        ensures
            r@ == (NavView { should_quit: false, state: AppState::Dashboard, db_selected: 0, vector_selected: 0 }),
    {
        Self::default()
    }

    /// Reacts to one terminal event; only keys matter.
    pub fn handle_event(&mut self, event: Event)
        ensures
            event matches Event::Key(k) ==> final(self)@ == old(self)@.key_step(k),
            event is Other ==> final(self)@ == old(self)@,
    {
        if let Event::Key(key) = event {
            self.handle_key_event(key);
        }
    }

    fn handle_key_event(&mut self, key: Key)
        ensures
            final(self)@ == old(self)@.key_step(key),
    {
        match key {
            Key::Char(c) => {
                if c == 'q' {
                    self.should_quit = true;
                }
            },
            Key::Esc => {
                self.should_quit = true;
            },
            Key::Right | Key::Enter => self.next_page(),
            Key::Left => self.previous_page(),
            Key::Up => self.select_previous(),
            Key::Down => self.select_next(),
            _ => {},
        }
    }

    fn next_page(&mut self)
        ensures
            final(self)@ == old(self)@.next_page(),
    {
        self.state = match self.state {
            AppState::Dashboard => AppState::Database,
            AppState::Database => AppState::VectorOperations,
            AppState::VectorOperations => AppState::VectorOperations,
        };
    }

    fn previous_page(&mut self)
        ensures
            final(self)@ == old(self)@.previous_page(),
    {
        self.state = match self.state {
            AppState::Dashboard => AppState::Dashboard,
            AppState::Database => AppState::Dashboard,
            AppState::VectorOperations => AppState::Database,
        };
    }

    fn select_previous(&mut self)
        ensures
            final(self)@ == old(self)@.select_previous(),
    {
        match self.state {
            AppState::Dashboard => {},
            AppState::Database => {
                if self.db_selected > 0 {
                    self.db_selected -= 1;
                }
            },
            AppState::VectorOperations => {
                if self.vector_selected > 0 {
                    self.vector_selected -= 1;
                }
            },
        }
    }

    fn select_next(&mut self)
        ensures
            final(self)@ == old(self)@.select_next(),
    {
        match self.state {
            AppState::Dashboard => {},
            AppState::Database => {
                let max_items: usize = 3;
                if self.db_selected < max_items - 1 {
                    self.db_selected += 1;
                }
            },
            AppState::VectorOperations => {
                let max_items: usize = 5;
                if self.vector_selected < max_items - 1 {
                    self.vector_selected += 1;
                }
            },
        }
    }
}

} // verus!
