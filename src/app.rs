//! The consumer: the single state machine that takes decoded images off the
//! queue one at a time, shows the current one, turns a key press into a skip
//! or a move, and counts progress.

use vstd::prelude::*;

use crate::catalog::{image_paths, is_image_path, Catalog, CatalogError, DirEntry};
use crate::path::{file_name, file_name_of, join, joined_of, str_is};

verus! {

/// The settings: the directory to triage and, for each key, a destination
/// directory or the word `skip`.
pub struct Config {
    pub dir: String,
    pub dests: Vec<(char, String)>,
}

/// The most recent action taken.
#[derive(Debug, PartialEq, Eq)]
pub enum AppLog {
    /// The file of this name was moved to this path.
    MoveSuccess(String, String),
    /// The file of this name was skipped.
    Skip(String),
}

impl Clone for AppLog {
    fn clone(&self) -> (r: AppLog)
        ensures
            r == *self,
    {
        match self {
            AppLog::MoveSuccess(f, d) => AppLog::MoveSuccess(f.clone(), d.clone()),
            AppLog::Skip(f) => AppLog::Skip(f.clone()),
        }
    }
}

/// What the presentation side shows besides the image.
pub struct AppInfo {
    pub img_num: usize,
    pub keybind: Vec<(char, String)>,
}

/// Where the consumer stands.
#[derive(Debug, Clone, Copy, PartialEq, Eq, Structural)]
pub enum Phase {
    /// No image has been delivered yet.
    AwaitingFirst,
    /// The image at this catalog index is shown.
    Displaying(usize),
    /// The queue is closed and drained: every deliverable image was delivered.
    Finished,
}

/// Why the consumer could not be set up.
#[derive(Debug, Clone, Copy, PartialEq, Eq, Structural)]
pub enum AppError {
    /// The directory to triage is not a readable directory.
    InvalidDirectory,
    /// The directory holds no image.
    EmptyCatalog,
    /// This key is bound twice.
    DuplicateKey(char),
}

/// Why no next image was taken.
#[derive(Debug, Clone, Copy, PartialEq, Eq, Structural)]
pub enum NextError {
    /// The queue is closed and empty.
    Disconnected,
    /// The delivered index lies outside the catalog.
    UnknownIndex(usize),
    /// The image at this index was delivered before.
    AlreadyDelivered(usize),
}

/// Why a move did not happen; the message is the one the file system gave.
#[derive(Debug, PartialEq, Eq)]
pub enum MoveError {
    /// The destination directory could not be created.
    CreateDir(String),
    /// A file of the same name already exists at the destination.
    Collision,
    /// The rename failed.
    Rename(String),
}

/// A move to carry out: create `dest_dir` with its ancestors, then rename
/// `src` to `dest_path`, unless something already exists there.
#[derive(Debug, PartialEq, Eq)]
pub struct MovePlan {
    pub src: String,
    pub dest_dir: String,
    pub dest_path: String,
    pub file_name: String,
}

/// What a key press asks of the caller.
#[derive(Debug, PartialEq, Eq)]
pub enum KeyAction {
    /// Nothing: the key is unbound, or no image is shown.
    Ignored,
    /// The current image was skipped; the file system is left alone.
    Skipped,
    /// The current image is to be moved; report the outcome with `finish_move`.
    Move(MovePlan),
}

pub open spec fn dests_view(v: Seq<(char, String)>) -> Seq<(char, Seq<char>)> {
    v.map_values(|p: (char, String)| (p.0, p.1@))
}

pub open spec fn keys_unique(d: Seq<(char, Seq<char>)>) -> bool {
    forall|i: int, j: int| 0 <= i < j < d.len() ==> d[i].0 != d[j].0
}

/// Whether `c` is bound at two places of `d`.
pub open spec fn is_duplicate_key(d: Seq<(char, Seq<char>)>, c: char) -> bool {
    exists|i: int, j: int| 0 <= i < j < d.len() && d[i].0 == c && d[j].0 == c
}

/// What `key` is bound to.
pub open spec fn lookup(d: Seq<(char, Seq<char>)>, key: char) -> Option<Seq<char>> {
    if exists|i: int| 0 <= i < d.len() && d[i].0 == key {
        Some(d[choose|i: int| 0 <= i < d.len() && d[i].0 == key].1)
    } else {
        None
    }
}

/// The value that binds a key to skipping rather than to a directory.
pub open spec fn is_skip_value(v: Seq<char>) -> bool {
    v == "skip"@
}

pub open spec fn is_skip_log(l: Option<AppLog>, name: Seq<char>) -> bool {
    match l {
        Some(AppLog::Skip(f)) => f@ == name,
        _ => false,
    }
}

pub open spec fn is_move_log(l: Option<AppLog>, name: Seq<char>, dest: Seq<char>) -> bool {
    match l {
        Some(AppLog::MoveSuccess(f, d)) => f@ == name && d@ == dest,
        _ => false,
    }
}

/// Finds a key bound twice, if any.
fn find_duplicate_key(d: &Vec<(char, String)>) -> (r: Option<char>)
    ensures
        r is None <==> keys_unique(dests_view(d@)),
        r matches Some(c) ==> is_duplicate_key(dests_view(d@), c),
{
    let ghost dv = dests_view(d@);
    let mut i: usize = 0;
    while i < d.len()
        invariant
            dv == dests_view(d@),
            i <= d@.len(),
            forall|a: int, b: int| 0 <= a < b < d@.len() && a < i ==> dv[a].0 != dv[b].0,
        decreases d@.len() - i,
    {
        let mut j: usize = i + 1;
        while j < d.len()
            invariant
                dv == dests_view(d@),
                i < d@.len(),
                i + 1 <= j <= d@.len(),
                forall|a: int, b: int| 0 <= a < b < d@.len() && a < i ==> dv[a].0 != dv[b].0,
                forall|b: int| i < b < j ==> dv[i as int].0 != dv[b].0,
            decreases d@.len() - j,
        {
            if d[i].0 == d[j].0 {
                assert(dv[i as int] == (d@[i as int].0, d@[i as int].1@));
                assert(dv[j as int] == (d@[j as int].0, d@[j as int].1@));
                assert(is_duplicate_key(dv, d@[i as int].0) && dv[i as int].0 == dv[j as int].0);
                return Some(d[i].0);
            }
            j += 1;
        }
        i += 1;
    }
    None
}

/// The value bound to `key`, if any.
fn lookup_key(d: &Vec<(char, String)>, key: char) -> (r: Option<&String>)
    requires
        keys_unique(dests_view(d@)),
    ensures
        match r {
            Some(v) => lookup(dests_view(d@), key) == Some(v@),
            None => lookup(dests_view(d@), key) is None,
        },
{
    let ghost dv = dests_view(d@);
    let mut i: usize = 0;
    while i < d.len()
        invariant
            dv == dests_view(d@),
            keys_unique(dv),
            i <= d@.len(),
            forall|a: int| 0 <= a < i ==> dv[a].0 != key,
        decreases d@.len() - i,
    {
        if d[i].0 == key {
            assert(dv[i as int] == (d@[i as int].0, d@[i as int].1@));
            let ghost k = choose|k: int| 0 <= k < dv.len() && dv[k].0 == key;
            assert(k == i);
            return Some(&d[i].1);
        }
        i += 1;
    }
    None
}

/// A copy of a key table.
fn copy_dests(d: &Vec<(char, String)>) -> (r: Vec<(char, String)>)
    ensures
        dests_view(r@) == dests_view(d@),
{
    let mut out: Vec<(char, String)> = Vec::new();
    let mut i: usize = 0;
    while i < d.len()
        invariant
            i <= d@.len(),
            out@.len() == i,
            forall|k: int| 0 <= k < i ==> out@[k].0 == d@[k].0 && out@[k].1@ == d@[k].1@,
        decreases d@.len() - i,
    {
        out.push((d[i].0, d[i].1.clone()));
        i += 1;
    }
    assert(dests_view(out@) =~= dests_view(d@));
    out
}

/// The consumer. It owns the catalog and the key table, both fixed once set
/// up, and tracks which catalog indices have been delivered so far.
pub struct App {
    config: Config,
    catalog: Catalog,
    log: Option<AppLog>,
    phase: Phase,
    progress: usize,
    seen: Vec<bool>,
    delivered: Ghost<Seq<usize>>,
    quit: bool,
}

/// Two consumers agree on everything but the most recent action.
pub open spec fn same_except_log(a: App, b: App) -> bool {
    &&& a.images() == b.images()
    &&& a.keybinds() == b.keybinds()
    &&& a.dir_spec() == b.dir_spec()
    &&& a.phase_spec() == b.phase_spec()
    &&& a.progress_spec() == b.progress_spec()
    &&& a.delivered() == b.delivered()
    &&& a.quit_spec() == b.quit_spec()
}

/// What a key press does: `before` and `after` are the consumer before and
/// after it, `r` what it returned.
pub open spec fn key_outcome(before: App, after: App, key: char, r: KeyAction) -> bool {
    &&& same_except_log(after, before)
    &&& match before.phase_spec() {
        Phase::Displaying(i) => match lookup(before.keybinds(), key) {
            None => r == KeyAction::Ignored && after == before,
            Some(v) => match file_name_of(before.images()[i as int]) {
                None => false,
                Some(name) => if is_skip_value(v) {
                    r == KeyAction::Skipped && is_skip_log(after.log_spec(), name)
                } else {
                    &&& after == before
                    &&& r matches KeyAction::Move(plan)
                    &&& plan.src@ == before.images()[i as int]
                    &&& plan.dest_dir@ == v
                    &&& plan.file_name@ == name
                    &&& plan.dest_path@ == joined_of(v, name)
                },
            },
        },
        _ => r == KeyAction::Ignored && after == before,
    }
}

impl App {
    /// The catalog's paths, by index.
    pub closed spec fn images(&self) -> Seq<Seq<char>> {
        self.catalog@
    }

    /// The key table.
    pub closed spec fn keybinds(&self) -> Seq<(char, Seq<char>)> {
        dests_view(self.config.dests@)
    }

    /// The directory being triaged.
    pub closed spec fn dir_spec(&self) -> Seq<char> {
        self.config.dir@
    }

    pub closed spec fn phase_spec(&self) -> Phase {
        self.phase
    }

    /// How many images have been taken off the queue.
    pub closed spec fn progress_spec(&self) -> nat {
        self.progress as nat
    }

    /// The catalog indices taken off the queue, in the order taken.
    pub closed spec fn delivered(&self) -> Seq<usize> {
        self.delivered@
    }

    pub closed spec fn log_spec(&self) -> Option<AppLog> {
        self.log
    }

    pub closed spec fn quit_spec(&self) -> bool {
        self.quit
    }

    /// The consumer's invariant: no index is delivered twice, each lies in the
    /// catalog, progress counts the deliveries, and the image shown is one of
    /// them.
    pub closed spec fn wf(&self) -> bool {
        &&& self.catalog.wf()
        &&& self.catalog@.len() <= usize::MAX
        &&& keys_unique(dests_view(self.config.dests@))
        &&& self.seen@.len() == self.catalog@.len()
        &&& self.delivered@.no_duplicates()
        &&& forall|k: int| 0 <= k < self.delivered@.len() ==> self.delivered@[k] < self.catalog@.len()
        &&& forall|i: usize| i < self.seen@.len() ==> (self.seen@[i as int] <==> self.delivered@.contains(i))
        &&& self.progress == self.delivered@.len()
        &&& match self.phase {
            Phase::AwaitingFirst => self.delivered@.len() == 0,
            Phase::Displaying(i) => i < self.catalog@.len() && self.delivered@.contains(i),
            Phase::Finished => true,
        }
    }

    /// Sets up the consumer for the directory `config.dir`, whose listing is
    /// given (`None` where it is not a readable directory).
    pub fn new(config: Config, listing: Option<Vec<DirEntry>>) -> (r: Result<App, AppError>)
        ensures
            listing is None ==> r == Err::<App, AppError>(AppError::InvalidDirectory),
            listing is Some && image_paths(listing->0@).len() == 0 ==> r == Err::<App, AppError>(
                AppError::EmptyCatalog,
            ),
            listing is Some && image_paths(listing->0@).len() > 0 ==> match r {
                Ok(app) => {
                    &&& keys_unique(dests_view(config.dests@))
                    &&& app.wf()
                    &&& app.images() == image_paths(listing->0@)
                    &&& app.keybinds() == dests_view(config.dests@)
                    &&& app.dir_spec() == config.dir@
                    &&& app.phase_spec() == Phase::AwaitingFirst
                    &&& app.progress_spec() == 0
                    &&& app.delivered() == Seq::<usize>::empty()
                    &&& app.log_spec() is None
                    &&& !app.quit_spec()
                },
                Err(e) => {
                    &&& !keys_unique(dests_view(config.dests@))
                    &&& e matches AppError::DuplicateKey(c) && is_duplicate_key(dests_view(config.dests@), c)
                },
            },
    {
        let catalog = match Catalog::build(listing) {
            Ok(c) => c,
            Err(CatalogError::InvalidDirectory) => return Err(AppError::InvalidDirectory),
            Err(CatalogError::EmptyCatalog) => return Err(AppError::EmptyCatalog),
        };
        if let Some(c) = find_duplicate_key(&config.dests) {
            return Err(AppError::DuplicateKey(c));
        }
        let n = catalog.len();
        let mut seen: Vec<bool> = Vec::new();
        let mut i: usize = 0;
        while i < n
            invariant
                i <= n,
                seen@.len() == i,
                forall|k: int| 0 <= k < i ==> !seen@[k],
            decreases n - i,
        {
            seen.push(false);
            i += 1;
        }
        Ok(App {
            config,
            catalog,
            log: None,
            phase: Phase::AwaitingFirst,
            progress: 0,
            seen,
            delivered: Ghost(Seq::empty()),
            quit: false,
        })
    }

    /// Takes what the queue gave: `Some(index)` for a decoded image, `None`
    /// once the queue is closed and empty. On success the image at that index
    /// is shown, its path is returned and progress grows by one. Once the
    /// queue is found closed the consumer is finished, whatever the catalog's
    /// length.
    pub fn get_img(&mut self, received: Option<usize>) -> (r: Result<String, NextError>)
        requires
            old(self).wf(),
        ensures
            final(self).wf(),
            match received {
                None => {
                    &&& r == Err::<String, NextError>(NextError::Disconnected)
                    &&& final(self).phase_spec() == Phase::Finished
                    &&& final(self).images() == old(self).images()
                    &&& final(self).keybinds() == old(self).keybinds()
                    &&& final(self).dir_spec() == old(self).dir_spec()
                    &&& final(self).progress_spec() == old(self).progress_spec()
                    &&& final(self).delivered() == old(self).delivered()
                    &&& final(self).log_spec() == old(self).log_spec()
                    &&& final(self).quit_spec() == old(self).quit_spec()
                },
                Some(i) => if old(self).phase_spec() == Phase::Finished {
                    r == Err::<String, NextError>(NextError::Disconnected) && *final(self) == *old(self)
                } else if i >= old(self).images().len() {
                    r == Err::<String, NextError>(NextError::UnknownIndex(i)) && *final(self) == *old(self)
                } else if old(self).delivered().contains(i) {
                    r == Err::<String, NextError>(NextError::AlreadyDelivered(i)) && *final(self) == *old(self)
                } else {
                    &&& r matches Ok(p) && p@ == old(self).images()[i as int]
                    &&& final(self).phase_spec() == Phase::Displaying(i)
                    &&& final(self).progress_spec() == old(self).progress_spec() + 1
                    &&& final(self).delivered() == old(self).delivered().push(i)
                    &&& final(self).images() == old(self).images()
                    &&& final(self).keybinds() == old(self).keybinds()
                    &&& final(self).dir_spec() == old(self).dir_spec()
                    &&& final(self).log_spec() == old(self).log_spec()
                    &&& final(self).quit_spec() == old(self).quit_spec()
                },
            },
    {
        match received {
            None => {
                self.phase = Phase::Finished;
                Err(NextError::Disconnected)
            },
            Some(i) => {
                if self.phase == Phase::Finished {
                    return Err(NextError::Disconnected);
                }
                if i >= self.catalog.len() {
                    return Err(NextError::UnknownIndex(i));
                }
                if self.seen[i] {
                    return Err(NextError::AlreadyDelivered(i));
                }
                let ghost old_delivered = self.delivered@;
                proof {
                    let d = old_delivered.push(i);
                    assert forall|a: int, b: int| 0 <= a < d.len() && 0 <= b < d.len() && a != b implies d[a] != d[b] by {
                        if a == d.len() - 1 {
                            assert(old_delivered.contains(d[b]));
                        } else if b == d.len() - 1 {
                            assert(old_delivered.contains(d[a]));
                        }
                    }
                    lemma_distinct_indices_bounded(d, self.catalog@.len());
                }
                self.seen.set(i, true);
                self.delivered = Ghost(old_delivered.push(i));
                self.progress = self.progress + 1;
                self.phase = Phase::Displaying(i);
                proof {
                    let d = self.delivered@;
                    assert(d.last() == i);
                    assert forall|x: usize| d.contains(x) <==> (old_delivered.contains(x) || x == i) by {
                        if d.contains(x) && x != i {
                            let j = choose|j: int| 0 <= j < d.len() && d[j] == x;
                            assert(old_delivered[j] == x);
                        }
                        if old_delivered.contains(x) {
                            let j = choose|j: int| 0 <= j < old_delivered.len() && old_delivered[j] == x;
                            assert(d[j] == x);
                        }
                    }
                }
                Ok(self.catalog.path(i).clone())
            },
        }
    }

    /// Acts on a key press. An unbound key, or any key while no image is
    /// shown, does nothing. A key bound to `skip` records the skip and leaves
    /// the file system alone. A key bound to a directory asks the caller to
    /// move the current image there, and changes nothing until the outcome
    /// comes back through `finish_move`.
    pub fn on_key(&mut self, key: char) -> (r: KeyAction)
        requires
            old(self).wf(),
        ensures
            final(self).wf(),
            key_outcome(*old(self), *final(self), key, r),
    {
        let i = match self.phase {
            Phase::Displaying(i) => i,
            _ => return KeyAction::Ignored,
        };
        let dest = match lookup_key(&self.config.dests, key) {
            Some(d) => d,
            None => return KeyAction::Ignored,
        };
        let src = self.catalog.path(i);
        let name = match file_name(src.as_str()) {
            Some(n) => n,
            None => {
                proof {
                    assert(is_image_path(self.catalog@[i as int]));
                }
                return KeyAction::Ignored;
            },
        };
        if str_is(dest.as_str(), "skip") {
            self.log = Some(AppLog::Skip(name));
            KeyAction::Skipped
        } else {
            let dest_path = join(dest.as_str(), name.as_str());
            KeyAction::Move(MovePlan { src: src.clone(), dest_dir: dest.clone(), dest_path, file_name: name })
        }
    }

    /// Takes the outcome of a move that `on_key` asked for. A move that
    /// happened is recorded as the most recent action; a failed one changes
    /// nothing, so the same image stays shown for another key.
    pub fn finish_move(&mut self, plan: MovePlan, outcome: Result<(), MoveError>) -> (r: Result<(), MoveError>)
        requires
            old(self).wf(),
        ensures
            final(self).wf(),
            same_except_log(*final(self), *old(self)),
            outcome is Ok ==> r is Ok && is_move_log(final(self).log_spec(), plan.file_name@, plan.dest_path@),
            outcome is Err ==> r == outcome && *final(self) == *old(self),
    {
        match outcome {
            Ok(()) => {
                self.log = Some(AppLog::MoveSuccess(plan.file_name, plan.dest_path));
                Ok(())
            },
            Err(e) => Err(e),
        }
    }

    /// Asks the owning loop to stop taking images; the workers are not
    /// interrupted.
    pub fn request_quit(&mut self)
        requires
            old(self).wf(),
        ensures
            final(self).wf(),
            final(self).quit_spec(),
            final(self).log_spec() == old(self).log_spec(),
            final(self).images() == old(self).images(),
            final(self).keybinds() == old(self).keybinds(),
            final(self).dir_spec() == old(self).dir_spec(),
            final(self).phase_spec() == old(self).phase_spec(),
            final(self).progress_spec() == old(self).progress_spec(),
            final(self).delivered() == old(self).delivered(),
    {
        self.quit = true;
    }

    pub fn quit_requested(&self) -> (r: bool)
        ensures
            r == self.quit_spec(),
    {
        self.quit
    }

    pub fn phase(&self) -> (r: Phase)
        ensures
            r == self.phase_spec(),
    {
        self.phase
    }

    /// Whether every image that could be delivered has been.
    pub fn is_finished(&self) -> (r: bool)
        ensures
            r == (self.phase_spec() == Phase::Finished),
    {
        self.phase == Phase::Finished
    }

    /// How many images have been taken, and how many the catalog holds.
    pub fn progress(&self) -> (r: (usize, usize))
        ensures
            r.0 == self.progress_spec(),
            r.1 == self.images().len(),
    {
        (self.progress, self.catalog.len())
    }

    /// The path of the image shown, if one is.
    pub fn current_path(&self) -> (r: Option<&String>)
        requires
            self.wf(),
        ensures
            match self.phase_spec() {
                Phase::Displaying(i) => r matches Some(p) && p@ == self.images()[i as int],
                _ => r is None,
            },
    {
        match self.phase {
            Phase::Displaying(i) => Some(self.catalog.path(i)),
            _ => None,
        }
    }

    /// The most recent action, if any.
    pub fn last_log(&self) -> (r: &Option<AppLog>)
        ensures
            *r == self.log_spec(),
    {
        &self.log
    }

    /// The catalog the workers decode from.
    pub fn catalog(&self) -> (r: &Catalog)
        ensures
            r@ == self.images(),
    {
        &self.catalog
    }

    /// The directory being triaged.
    pub fn dir(&self) -> (r: &String)
        ensures
            r@ == self.dir_spec(),
    {
        &self.config.dir
    }

    /// The catalog's length and a copy of the key table.
    pub fn get_app_info(&self) -> (r: AppInfo)
        ensures
            r.img_num == self.images().len(),
            dests_view(r.keybind@) == self.keybinds(),
    {
        AppInfo { img_num: self.catalog.len(), keybind: copy_dests(&self.config.dests) }
    }

    /// Progress counts the images taken off the queue, which are pairwise
    /// distinct catalog indices: it never exceeds the number delivered, nor the
    /// catalog's length.
    pub proof fn lemma_progress_bounded(&self)
        requires
            self.wf(),
        ensures
            self.progress_spec() == self.delivered().len(),
            self.delivered().no_duplicates(),
            forall|k: int| 0 <= k < self.delivered().len() ==> self.delivered()[k] < self.images().len(),
            self.progress_spec() <= self.images().len(),
    {
        lemma_distinct_indices_bounded(self.delivered@, self.catalog@.len());
    }
}

/// A key bound to `skip` asks for no move: the caller has nothing to carry
/// out on the file system, and only the most recent action changes.
pub proof fn lemma_skip_asks_no_move(before: App, after: App, key: char, r: KeyAction)
    requires
        key_outcome(before, after, key, r),
        before.phase_spec() is Displaying,
        lookup(before.keybinds(), key) matches Some(v) && is_skip_value(v),
    ensures
        r == KeyAction::Skipped,
        !(r is Move),
        same_except_log(after, before),
{
}

/// Distinct indices below `n` number at most `n`.
proof fn lemma_distinct_indices_bounded(s: Seq<usize>, n: nat)
    requires
        s.no_duplicates(),
        forall|k: int| 0 <= k < s.len() ==> s[k] < n,
        n <= usize::MAX,
    ensures
        s.len() <= n,
{
    crate::pool::lemma_distinct_below_bound(s, n as usize);
}

} // verus!
