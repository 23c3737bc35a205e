//! A read-only snapshot of the consumer, for the presentation side.

use vstd::prelude::*;

use crate::app::{dests_view, key_outcome, App, AppLog, KeyAction, Phase};

verus! {

/// What the screen shows: the current path, progress, the key table, the most
/// recent action, and whether all images are done.
pub struct ViewModel {
    pub img_path: Option<String>,
    pub progress: usize,
    pub img_num: usize,
    pub keybind: Vec<(char, String)>,
    pub log: Option<AppLog>,
    pub is_fin: bool,
}

/// Whether `vm` shows the state of `app`.
pub open spec fn shows(vm: ViewModel, app: App) -> bool {
    &&& match app.phase_spec() {
        Phase::Displaying(i) => vm.img_path matches Some(p) && p@ == app.images()[i as int],
        _ => vm.img_path is None,
    }
    &&& vm.progress == app.progress_spec()
    &&& vm.img_num == app.images().len()
    &&& dests_view(vm.keybind@) == app.keybinds()
    &&& vm.log == app.log_spec()
    &&& vm.is_fin == (app.phase_spec() == Phase::Finished)
}

impl ViewModel {
    /// The snapshot of `app`.
    pub fn new_from_app(app: &App) -> (r: ViewModel)
        requires
            app.wf(),
        ensures
            shows(r, *app),
    {
        let img_path = match app.current_path() {
            Some(p) => Some(p.clone()),
            None => None,
        };
        let (progress, img_num) = app.progress();
        let info = app.get_app_info();
        let log = match app.last_log() {
            Some(l) => Some(l.clone()),
            None => None,
        };
        ViewModel { img_path, progress, img_num, keybind: info.keybind, log, is_fin: app.is_finished() }
    }

    /// Passes a key press on to `app` and then shows its new state. A key
    /// that asks for a move is answered through `App::finish_move`, and the
    /// next image through `App::get_img`; refresh after each.
    pub fn on_key(&mut self, app: &mut App, key: char) -> (r: KeyAction)
        requires
            old(app).wf(),
        ensures
            final(app).wf(),
            shows(*final(self), *final(app)),
            key_outcome(*old(app), *final(app), key, r),
    {
        let r = app.on_key(key);
        self.refresh(app);
        r
    }

    /// Shows the current state of `app`.
    pub fn refresh(&mut self, app: &App)
        requires
            app.wf(),
        ensures
            shows(*final(self), *app),
    {
        *self = ViewModel::new_from_app(app);
    }
}

} // verus!
