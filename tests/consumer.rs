use imgsort::app::{App, AppError, AppLog, Config, KeyAction, MoveError, NextError, Phase};
use imgsort::catalog::DirEntry;
use imgsort::pool::{Worker, WorkerAction, WorkerEvent};
use imgsort::viewmodel::ViewModel;

fn listing(paths: &[&str]) -> Option<Vec<DirEntry>> {
    Some(paths.iter().map(|p| DirEntry { path: p.to_string(), is_file: true }).collect())
}

fn config(dests: &[(char, &str)]) -> Config {
    Config { dir: "/pics".to_string(), dests: dests.iter().map(|(c, d)| (*c, d.to_string())).collect() }
}

fn app(paths: &[&str], dests: &[(char, &str)]) -> App {
    App::new(config(dests), listing(paths)).ok().unwrap()
}

#[test]
fn new_rejects_invalid_directory() {
    assert_eq!(App::new(config(&[('x', "/dest")]), None).err(), Some(AppError::InvalidDirectory));
}

#[test]
fn new_rejects_empty_catalog() {
    assert_eq!(App::new(config(&[]), listing(&["/pics/a.txt"])).err(), Some(AppError::EmptyCatalog));
}

#[test]
fn new_rejects_key_bound_twice() {
    let r = App::new(config(&[('x', "/a"), ('y', "skip"), ('x', "/b")]), listing(&["/pics/a.jpg"]));
    assert_eq!(r.err(), Some(AppError::DuplicateKey('x')));
}

#[test]
fn new_starts_awaiting_first() {
    let a = app(&["/pics/a.jpg", "/pics/b.txt", "/pics/c.png"], &[('x', "/dest"), ('s', "skip")]);
    assert_eq!(a.phase(), Phase::AwaitingFirst);
    assert_eq!(a.progress(), (0, 2));
    assert!(a.current_path().is_none());
    assert!(a.last_log().is_none());
    assert_eq!(a.dir(), "/pics");
    let info = a.get_app_info();
    assert_eq!(info.img_num, 2);
    assert_eq!(info.keybind, vec![('x', "/dest".to_string()), ('s', "skip".to_string())]);
}

#[test]
fn progress_grows_by_one_per_delivery() {
    let mut a = app(&["/pics/a.jpg", "/pics/b.jpg", "/pics/c.jpg"], &[]);
    assert_eq!(a.get_img(Some(2)), Ok("/pics/c.jpg".to_string()));
    assert_eq!(a.progress(), (1, 3));
    assert_eq!(a.phase(), Phase::Displaying(2));
    assert_eq!(a.get_img(Some(0)), Ok("/pics/a.jpg".to_string()));
    assert_eq!(a.progress(), (2, 3));
    assert_eq!(a.current_path(), Some(&"/pics/a.jpg".to_string()));
}

#[test]
fn failed_delivery_leaves_progress() {
    let mut a = app(&["/pics/a.jpg", "/pics/b.jpg"], &[]);
    assert_eq!(a.get_img(Some(1)), Ok("/pics/b.jpg".to_string()));
    assert_eq!(a.get_img(Some(1)), Err(NextError::AlreadyDelivered(1)));
    assert_eq!(a.get_img(Some(7)), Err(NextError::UnknownIndex(7)));
    assert_eq!(a.progress(), (1, 2));
    assert_eq!(a.phase(), Phase::Displaying(1));
}

#[test]
fn finished_after_decode_failure() {
    // index 1 never decodes: two deliveries, then the queue closes
    let mut a = app(&["/pics/a.jpg", "/pics/b.jpg", "/pics/c.jpg"], &[('s', "skip")]);
    assert!(a.get_img(Some(0)).is_ok());
    assert!(!a.is_finished());
    assert!(a.get_img(Some(2)).is_ok());
    assert!(!a.is_finished());
    assert_eq!(a.get_img(None), Err(NextError::Disconnected));
    assert!(a.is_finished());
    assert_eq!(a.phase(), Phase::Finished);
    assert_eq!(a.progress(), (2, 3));
    assert_eq!(a.get_img(Some(1)), Err(NextError::Disconnected));
    assert_eq!(a.progress(), (2, 3));
}

#[test]
fn skip_records_file_name() {
    let mut a = app(&["/pics/a.jpg"], &[('s', "skip")]);
    a.get_img(Some(0)).unwrap();
    assert_eq!(a.on_key('s'), KeyAction::Skipped);
    assert_eq!(a.last_log(), &Some(AppLog::Skip("a.jpg".to_string())));
    assert_eq!(a.progress(), (1, 1));
    assert_eq!(a.phase(), Phase::Displaying(0));
}

#[test]
fn unbound_key_does_nothing() {
    let mut a = app(&["/pics/a.jpg"], &[('s', "skip")]);
    a.get_img(Some(0)).unwrap();
    assert_eq!(a.on_key('z'), KeyAction::Ignored);
    assert!(a.last_log().is_none());
}

#[test]
fn key_before_first_image_does_nothing() {
    let mut a = app(&["/pics/a.jpg"], &[('s', "skip"), ('x', "/dest")]);
    assert_eq!(a.on_key('s'), KeyAction::Ignored);
    assert_eq!(a.on_key('x'), KeyAction::Ignored);
    assert!(a.last_log().is_none());
}

#[test]
fn move_key_plans_the_move() {
    let mut a = app(&["/pics/a.jpg"], &[('x', "/dest")]);
    a.get_img(Some(0)).unwrap();
    let r = a.on_key('x');
    match r {
        KeyAction::Move(plan) => {
            assert_eq!(plan.src, "/pics/a.jpg");
            assert_eq!(plan.dest_dir, "/dest");
            assert_eq!(plan.file_name, "a.jpg");
            assert_eq!(plan.dest_path, "/dest/a.jpg");
        },
        other => panic!("expected a move, got {:?}", other),
    }
    assert!(a.last_log().is_none());
}

#[test]
fn collision_leaves_state_unchanged() {
    let mut a = app(&["/pics/a.jpg", "/pics/b.jpg"], &[('x', "/dest"), ('s', "skip")]);
    a.get_img(Some(0)).unwrap();
    assert_eq!(a.on_key('s'), KeyAction::Skipped);
    let plan = match a.on_key('x') {
        KeyAction::Move(p) => p,
        other => panic!("expected a move, got {:?}", other),
    };
    assert_eq!(a.finish_move(plan, Err(MoveError::Collision)), Err(MoveError::Collision));
    assert_eq!(a.last_log(), &Some(AppLog::Skip("a.jpg".to_string())));
    assert_eq!(a.phase(), Phase::Displaying(0));
    assert_eq!(a.progress(), (1, 2));
}

#[test]
fn rename_failure_is_surfaced() {
    let mut a = app(&["/pics/a.jpg"], &[('x', "/dest")]);
    a.get_img(Some(0)).unwrap();
    let plan = match a.on_key('x') {
        KeyAction::Move(p) => p,
        other => panic!("expected a move, got {:?}", other),
    };
    let e = MoveError::Rename("permission denied".to_string());
    assert_eq!(a.finish_move(plan, Err(e)), Err(MoveError::Rename("permission denied".to_string())));
    assert!(a.last_log().is_none());
}

#[test]
fn three_moves_in_sequence() {
    let mut a = app(&["/src/a.jpg", "/src/b.jpg", "/src/c.jpg"], &[('x', "/dest")]);
    let mut logs = Vec::new();
    let mut moved = Vec::new();
    a.get_img(Some(0)).unwrap();
    for next in [Some(1), Some(2), None] {
        let plan = match a.on_key('x') {
            KeyAction::Move(p) => p,
            other => panic!("expected a move, got {:?}", other),
        };
        moved.push(plan.dest_path.clone());
        assert_eq!(a.finish_move(plan, Ok(())), Ok(()));
        logs.push(a.last_log().clone().unwrap());
        let _ = a.get_img(next);
    }
    assert_eq!(
        logs,
        vec![
            AppLog::MoveSuccess("a.jpg".to_string(), "/dest/a.jpg".to_string()),
            AppLog::MoveSuccess("b.jpg".to_string(), "/dest/b.jpg".to_string()),
            AppLog::MoveSuccess("c.jpg".to_string(), "/dest/c.jpg".to_string()),
        ]
    );
    assert_eq!(moved, vec!["/dest/a.jpg".to_string(), "/dest/b.jpg".to_string(), "/dest/c.jpg".to_string()]);
    assert!(a.is_finished());
    assert_eq!(a.progress(), (3, 3));
}

#[test]
fn quit_is_only_a_flag() {
    let mut a = app(&["/pics/a.jpg"], &[]);
    a.get_img(Some(0)).unwrap();
    assert!(!a.quit_requested());
    a.request_quit();
    assert!(a.quit_requested());
    assert_eq!(a.phase(), Phase::Displaying(0));
}

#[test]
fn many_workers_deliver_each_index_once() {
    // eight workers interleaved step by step over one shared cursor
    let n: usize = 1000;
    let paths: Vec<String> = (0..n).map(|i| format!("/pics/{}.png", i)).collect();
    let refs: Vec<&str> = paths.iter().map(|s| s.as_str()).collect();
    let mut a = app(&refs, &[]);
    let mut workers: Vec<Worker> = (0..8).map(|_| Worker::new(n)).collect();
    let mut actions: Vec<WorkerAction> = vec![WorkerAction::Claim; 8];
    let mut cursor: usize = 0;
    let mut delivered = 0;
    while actions.iter().any(|x| *x != WorkerAction::Exit) {
        for k in 0..8 {
            let event = match actions[k] {
                WorkerAction::Claim => {
                    cursor += 1;
                    WorkerEvent::Claimed(cursor - 1)
                },
                WorkerAction::Decode(i) => {
                    if i % 97 == 5 { WorkerEvent::DecodeFailed } else { WorkerEvent::Decoded }
                },
                WorkerAction::Send(i) => {
                    assert!(a.get_img(Some(i)).is_ok());
                    delivered += 1;
                    WorkerEvent::Sent
                },
                WorkerAction::Exit => continue,
            };
            actions[k] = workers[k].step(event);
        }
    }
    let failed = (0..n).filter(|i| i % 97 == 5).count();
    assert_eq!(delivered, n - failed);
    assert_eq!(a.get_img(None), Err(NextError::Disconnected));
    assert_eq!(a.progress(), (n - failed, n));
}

#[test]
fn view_model_mirrors_app() {
    let mut a = app(&["/pics/a.jpg", "/pics/b.jpg"], &[('s', "skip")]);
    a.get_img(Some(1)).unwrap();
    let mut vm = ViewModel::new_from_app(&a);
    assert_eq!(vm.img_path, Some("/pics/b.jpg".to_string()));
    assert_eq!(vm.progress, 1);
    assert_eq!(vm.img_num, 2);
    assert!(!vm.is_fin);
    assert_eq!(vm.on_key(&mut a, 's'), KeyAction::Skipped);
    assert_eq!(vm.log, Some(AppLog::Skip("b.jpg".to_string())));
    a.get_img(None).unwrap_err();
    vm.refresh(&a);
    assert!(vm.is_fin);
    assert_eq!(vm.img_path, None);
    assert_eq!(vm.keybind, vec![('s', "skip".to_string())]);
}
