use std::collections::HashMap;

use bimgo::dispatcher::Dispatcher;
use bimgo::img::{deleted_file_path, process_tmp_path, tmp_path_from_parts, ImgError, ImgItem, ProcessError, ProcessItem, ProcessingState};
use bimgo::transaction::{DoubleMove, MoveError};
use bimgo::utils::PathKind;

/// Files on a pretend disk: the content at each path.
type Disk = HashMap<String, Vec<u8>>;

fn move_on(disk: &mut Disk, from: &str, to: &str) -> Result<(), String> {
    match disk.remove(from) {
        Some(content) => {
            disk.insert(to.to_string(), content);
            Ok(())
        }
        None => Err(format!("{from} does not exist")),
    }
}

/// Runs a double move on the pretend disk; `fail` lists the attempts (0, 1
/// or 2) that fail whatever the disk holds.
fn run_moves(disk: &mut Disk, moves: &mut DoubleMove, fail: &[usize]) {
    let mut attempt = 0;
    while let Some((from, to)) = moves.next_move() {
        let outcome = if fail.contains(&attempt) {
            Err(String::from("refused"))
        } else {
            move_on(disk, &from, &to)
        };
        moves.record(outcome);
        attempt += 1;
    }
}

fn start(disk: &Disk) -> DoubleMove {
    let _ = disk;
    DoubleMove::new("/a".into(), "/b".into(), "/c".into(), "/d".into())
}

fn sample_disk() -> Disk {
    let mut disk = Disk::new();
    disk.insert("/a".into(), b"first".to_vec());
    disk.insert("/c".into(), b"second".to_vec());
    disk
}

#[test]
fn double_move_success() {
    let mut disk = sample_disk();
    let mut m = start(&disk);
    run_moves(&mut disk, &mut m, &[]);
    assert!(matches!(m.into_result(), Some(Ok(()))));
    assert_eq!(disk.get("/b").unwrap(), b"first");
    assert_eq!(disk.get("/d").unwrap(), b"second");
    assert!(!disk.contains_key("/a") && !disk.contains_key("/c"));
}

#[test]
fn double_move_first_fails_moves_nothing() {
    let mut disk = sample_disk();
    let before = disk.clone();
    let mut m = start(&disk);
    run_moves(&mut disk, &mut m, &[0]);
    assert!(matches!(m.into_result(), Some(Err(MoveError::First { .. }))));
    assert_eq!(disk, before);
}

#[test]
fn double_move_second_fails_is_rolled_back() {
    let mut disk = sample_disk();
    let before = disk.clone();
    let mut m = start(&disk);
    run_moves(&mut disk, &mut m, &[1]);
    match m.into_result() {
        Some(Err(MoveError::Second { error })) => assert_eq!(error, "refused"),
        other => panic!("unexpected {other:?}"),
    }
    assert!(!disk.contains_key("/b"));
    assert_eq!(disk.get("/a").unwrap(), b"first");
    assert_eq!(disk, before);
}

#[test]
fn double_move_rollback_fails_names_both() {
    let mut disk = sample_disk();
    let mut m = start(&disk);
    run_moves(&mut disk, &mut m, &[1, 2]);
    match m.into_result() {
        Some(Err(MoveError::Rollback { error, rollback_error })) => {
            assert_eq!(error, "refused");
            assert_eq!(rollback_error, "refused");
        }
        other => panic!("unexpected {other:?}"),
    }
    assert_eq!(disk.get("/b").unwrap(), b"first");
    assert!(!disk.contains_key("/a"));
}

#[test]
fn double_move_not_started_has_no_result() {
    let m = DoubleMove::new("/a".into(), "/b".into(), "/c".into(), "/d".into());
    assert_eq!(m.next_move(), Some((String::from("/a"), String::from("/b"))));
    assert!(m.into_result().is_none());
}

#[test]
fn tmp_path_naming_rule() {
    assert_eq!(process_tmp_path("/home/u/pic.jpg", "/tmp/out", 0).unwrap(), "/tmp/out/pic_processed_0.jpg");
    assert_eq!(process_tmp_path("/home/u/pic.tar.gz", "/tmp/", 12).unwrap(), "/tmp/pic.tar_processed_12.gz");
    assert_eq!(process_tmp_path("/a/b", "/o", 3).unwrap(), "/o/b_processed_3");
    assert!(process_tmp_path("/", "/o", 0).is_none());
    assert_eq!(tmp_path_from_parts("/o", "x", &Some(String::from("png")), 7), "/o/x_processed_7.png");
    assert_eq!(tmp_path_from_parts("/o", "x", &None, 7), "/o/x_processed_7");
}

#[test]
fn trash_path_flattens_source() {
    assert_eq!(deleted_file_path("/home/u/a%b.jpg", "/tmp/trash"), "/tmp/trash/%home%u%a%%b.jpg");
}

fn processed_item(disk: &mut Disk, source: &str, out_dir: &str, cmd: &str, index: usize) -> ProcessItem {
    let mut p = ProcessItem::new();
    let inv = p.prepare_process(source, out_dir, PathKind::Directory, cmd, index).unwrap().unwrap();
    assert_eq!(inv.argv[0], "cp");
    let content = disk.get(&inv.argv[1]).unwrap().clone();
    disk.insert(inv.argv[2].clone(), content);
    let len = disk.get(&inv.output).map(|c| c.len() as u64);
    p.finish_process(&inv.output, len).unwrap();
    p
}

#[test]
fn process_item_failures_are_final() {
    let mut p = ProcessItem::new();
    assert_eq!(p.state(), ProcessingState::NotProcessed);
    let r = p.prepare_process("/a/pic.png", "/nowhere", PathKind::Missing, "cp %i %o", 0);
    assert!(matches!(r, Err(ProcessError::InvalidTarget)));
    assert_eq!(p.state(), ProcessingState::Failed);
    assert!(!p.is_processed());
    assert!(p.tmp_path().is_none());
    let again = p.prepare_process("/a/pic.png", "/tmp", PathKind::Directory, "cp %i %o", 0);
    assert!(matches!(again, Ok(None)));
    assert_eq!(p.state(), ProcessingState::Failed);
}

#[test]
fn process_item_output_checks() {
    let mut a = ProcessItem::new();
    assert!(matches!(a.finish_process("/o/x", None), Err(ProcessError::ExecutionProducedNoOutput)));
    assert_eq!(a.state(), ProcessingState::Failed);
    let mut b = ProcessItem::default();
    assert!(matches!(b.finish_process("/o/x", Some(0)), Err(ProcessError::EmptyOutput)));
    assert_eq!(b.state(), ProcessingState::Failed);
    let mut c = ProcessItem::new();
    assert!(c.finish_process("/o/x", Some(3)).is_ok());
    assert!(c.is_processed());
    assert_eq!(c.tmp_path().unwrap(), "/o/x");
    assert!(c.finish_process("/o/y", None).is_ok());
    assert_eq!(c.tmp_path().unwrap(), "/o/x");
    let skipped = c.prepare_process("/a/pic.png", "/o", PathKind::Directory, "cp %i %o", 1);
    assert!(matches!(skipped, Ok(None)));
    assert_eq!(c.tmp_path().unwrap(), "/o/x");
    let mut d = ProcessItem::new();
    assert!(matches!(
        d.prepare_process("/", "/o", PathKind::Directory, "cp %i %o", 0),
        Err(ProcessError::NoFileName)
    ));
}

#[test]
fn validate_refusals() {
    let img = ImgItem::new("/p/a.jpg", 2);
    assert!(matches!(img.validate(5, "/t", PathKind::Directory), Err(ImgError::NoSuchIndex)));
    assert!(matches!(img.validate(0, "/t", PathKind::Directory), Err(ImgError::NotYetProcessed)));
    assert!(matches!(img.undo(), Err(ImgError::NoValidatedInstance)));
    let mut disk = Disk::new();
    disk.insert("/p/a.jpg".into(), b"orig".to_vec());
    let mut img = ImgItem::new("/p/a.jpg", 2);
    let mut p = img.take_for_processing(1).unwrap();
    assert!(matches!(img.validate(1, "/t", PathKind::Directory), Err(ImgError::NoSuchIndex)));
    p = {
        let _ = p;
        processed_item(&mut disk, "/p/a.jpg", "/o", "cp %i %o", 1)
    };
    assert!(img.put_back(1, p).is_ok());
    assert!(matches!(img.validate(1, "/t", PathKind::File), Err(ImgError::InvalidTarget)));
    let unfinished = img.validate(1, "/t", PathKind::Directory).unwrap();
    assert!(matches!(img.finish_validate(1, unfinished), Err(ImgError::Unfinished)));
    assert!(!img.is_validated());
}

#[test]
fn validate_failed_move_changes_nothing() {
    let mut disk = Disk::new();
    disk.insert("/p/a.jpg".into(), b"orig".to_vec());
    let mut img = ImgItem::new("/p/a.jpg", 1);
    let _ = img.take_for_processing(0).unwrap();
    let p = processed_item(&mut disk, "/p/a.jpg", "/o", "cp %i %o", 0);
    img.put_back(0, p).unwrap();
    let before = disk.clone();
    let mut moves = img.validate(0, "/t", PathKind::Directory).unwrap();
    run_moves(&mut disk, &mut moves, &[0]);
    assert!(matches!(img.finish_validate(0, moves), Err(ImgError::Move(MoveError::First { .. }))));
    assert!(!img.is_validated());
    assert!(img.get_validated().is_none());
    assert_eq!(disk, before);
}

#[test]
fn scenario_process_validate_undo() {
    let sources = ["/photos/one.png", "/photos/two.png", "/photos/three.png"];
    let mut disk = Disk::new();
    for (k, s) in sources.iter().enumerate() {
        disk.insert(s.to_string(), vec![k as u8 + 1; 10]);
    }
    let paths: Vec<String> = sources.iter().map(|s| s.to_string()).collect();
    let cmds = vec![String::from("cp %i %o"), String::from("convert %i %o")];
    let mut d = Dispatcher::new(&paths, cmds);
    assert_eq!((d.imgs_len(), d.cmds_len()), (3, 2));

    // Process image 0 with command 0.
    let jobs = d.schedule_nearby();
    assert_eq!(jobs.len(), 6);
    assert_eq!((jobs[0].image_index, jobs[0].cmd_index), (0, 0));
    assert!(d.schedule_nearby().is_empty());
    for mut job in jobs {
        if (job.image_index, job.cmd_index) == (0, 0) {
            let inv = job
                .item
                .prepare_process(&job.source, "/tmp/out", PathKind::Directory, &job.cmd, 0)
                .unwrap()
                .unwrap();
            assert_eq!(inv.output, "/tmp/out/one_processed_0.png");
            assert_eq!(inv.argv, vec!["cp", "/photos/one.png", "/tmp/out/one_processed_0.png"]);
            let content = disk.get(&inv.argv[1]).unwrap().clone();
            disk.insert(inv.argv[2].clone(), content);
            let len = disk.get(&inv.output).map(|c| c.len() as u64);
            job.item.finish_process(&inv.output, len).unwrap();
        }
        let current = d.complete(job.image_index, job.cmd_index, job.item).unwrap();
        assert_eq!(current, (job.image_index, job.cmd_index) == (0, 0));
    }
    let img = d.img(0);
    let p = img.process_item(0).unwrap();
    assert_eq!(p.tmp_path().unwrap(), "/tmp/out/one_processed_0.png");
    assert_eq!(disk.get("/tmp/out/one_processed_0.png"), disk.get("/photos/one.png"));
    assert_eq!(d.processed_path().unwrap(), "/tmp/out/one_processed_0.png");
    let before = disk.clone();

    // Validate: the original goes to the trash, the copy takes its place.
    let mut moves = d.validate_current("/tmp/trash", PathKind::Directory).unwrap();
    run_moves(&mut disk, &mut moves, &[]);
    d.finish_validate_current(moves).unwrap();
    let trash = "/tmp/trash/%photos%one.png";
    assert_eq!(d.img(0).deleted().unwrap(), trash);
    assert!(d.img(0).is_validated());
    assert_eq!(d.img(0).get_validated().unwrap().processed_path().unwrap(), "/photos/one.png");
    assert_eq!(disk.get(trash).unwrap(), &vec![1u8; 10]);
    assert!(!disk.contains_key("/tmp/out/one_processed_0.png"));
    assert_eq!(d.source_path().unwrap(), trash);
    assert_eq!(d.processed_path().unwrap(), "/photos/one.png");
    assert!(matches!(d.validate_current("/tmp/trash", PathKind::Directory), Err(ImgError::AlreadyValidated)));

    // Undo: both files go back.
    let mut undo = d.undo_current().unwrap();
    run_moves(&mut disk, &mut undo, &[]);
    d.finish_undo_current(undo).unwrap();
    assert_eq!(disk, before);
    assert!(!d.img(0).is_validated());
    assert!(d.img(0).get_validated().is_none());
    assert_eq!(d.img(0).process_item(0).unwrap().tmp_path().unwrap(), "/tmp/out/one_processed_0.png");
    assert_eq!(d.source_path().unwrap(), "/photos/one.png");
}

#[test]
fn dispatcher_cursor_and_refusals() {
    let paths: Vec<String> = (0..20).map(|k| format!("/i/{k}.png")).collect();
    let cmds = vec![String::from("cp %i %o")];
    let mut d = Dispatcher::new(&paths, cmds);
    assert!(!d.prev_image());
    assert!(!d.prev_cmd());
    assert!(!d.next_cmd());
    for _ in 0..10 {
        assert!(d.next_image());
    }
    assert_eq!(d.index(), 10);
    let jobs = d.schedule_nearby();
    let mut cells: Vec<usize> = jobs.iter().map(|j| j.image_index).collect();
    assert_eq!(cells[0], 10);
    cells.sort();
    assert_eq!(cells, (5..=15).collect::<Vec<usize>>());
    let mut jobs = jobs;
    let job = jobs.pop().unwrap();
    let idx = job.image_index;
    assert!(d.complete(idx, 0, job.item).is_ok());
    let again = ProcessItem::new();
    assert!(d.complete(idx, 0, again).is_err());
    assert!(d.complete(99, 0, ProcessItem::new()).is_err());
    assert_eq!(d.schedule_nearby().len(), 1);
    let mut empty = Dispatcher::new(&Vec::new(), Vec::new());
    assert!(empty.schedule_nearby().is_empty());
    assert!(empty.source_path().is_none());
    assert!(matches!(empty.undo_current(), Err(ImgError::NoValidatedInstance)));
}
