use mermaid_quicklook::preview::{preview_dir_from, preview_path_from};
use mermaid_quicklook::serial::Serials;
use mermaid_quicklook::render::{
    mmdc_arguments, mmdc_path, render, staged_path, RenderError, RenderEvent, RenderJob, Stage,
};

fn error(job: &RenderJob) -> String {
    match &job.stage {
        Stage::Done { result: Err(e) } => e.message(),
        _ => panic!("not failed"),
    }
}

fn strings(args: &Vec<Vec<u8>>) -> Vec<String> {
    args.iter().map(|a| String::from_utf8(a.clone()).unwrap()).collect()
}

fn start() -> RenderJob {
    render("%%\nflowchart TB", b"/out/x.png")
}

fn located() -> RenderJob {
    start().advance(RenderEvent::Located { mmdc: Some(b"/bin/mmdc".to_vec()) })
}

fn scratched() -> RenderJob {
    located().advance(RenderEvent::Succeeded)
}

fn writing() -> RenderJob {
    scratched().advance(RenderEvent::Scratch { dir: b"/tmp/s".to_vec() })
}

fn running() -> RenderJob {
    writing().advance(RenderEvent::Written { pid: 42, serial: 7 })
}

#[test]
fn configured_mmdc_is_preferred_where_it_is_a_file() {
    let set = Some("/opt/mmdc".to_string());
    let found = Some(b"/usr/bin/mmdc".to_vec());
    assert_eq!(mmdc_path(set.clone(), true, found.clone()).ok(), Some(b"/opt/mmdc".to_vec()));
    assert_eq!(mmdc_path(set.clone(), false, found.clone()).ok(), found);
    assert_eq!(mmdc_path(None, true, found.clone()).ok(), found);
    match mmdc_path(set, false, None) {
        Err(e) => {
            assert!(matches!(e, RenderError::MmdcNotFound));
            assert_eq!(
                e.message(),
                "mmdc not found. Install it with: npm install -g @mermaid-js/mermaid-cli"
            );
        }
        Ok(_) => panic!(),
    }
}

#[test]
fn blank_diagram_is_refused() {
    assert_eq!(error(&render("", b"/out/x.png")), "diagram is empty");
    assert_eq!(error(&render(" \n\t\u{3000}", b"/out/x.png")), "diagram is empty");
    assert!(matches!(render("%%", b"/out/x.png").stage, Stage::FindMmdc));
}

#[test]
fn render_that_works_moves_the_staged_file_into_place() {
    let job = start();
    assert_eq!(job.source, "flowchart TB");
    assert_eq!(job.output, b"/out/x.png");
    assert!(matches!(job.stage, Stage::FindMmdc));
    match located().stage {
        Stage::CreateDir { mmdc, dir } => {
            assert_eq!(mmdc, b"/bin/mmdc");
            assert_eq!(dir, b"/out");
        }
        _ => panic!(),
    }
    assert!(matches!(scratched().stage, Stage::CreateScratch { .. }));
    match writing().stage {
        Stage::WriteInput { input, .. } => assert_eq!(input, b"/tmp/s/diagram.mmd"),
        _ => panic!(),
    }
    match running().stage {
        Stage::Run { mmdc, args, staged } => {
            assert_eq!(mmdc, b"/bin/mmdc");
            assert_eq!(staged, b"/out/.x.tmp.42.7.png");
            assert_eq!(
                strings(&args),
                vec![
                    "-i", "/tmp/s/diagram.mmd", "-o", "/out/.x.tmp.42.7.png", "-b", "white", "-s",
                    "6"
                ]
            );
        }
        _ => panic!(),
    }
    let job = running().advance(RenderEvent::Exited { success: true, stderr: String::new() });
    match &job.stage {
        Stage::Move { staged } => assert_eq!(staged, b"/out/.x.tmp.42.7.png"),
        _ => panic!(),
    }
    let job = job.advance(RenderEvent::Succeeded);
    assert!(matches!(job.stage, Stage::Done { result: Ok(()) }));
}

#[test]
fn failed_run_discards_the_staged_file_and_keeps_the_output() {
    let job = running().advance(RenderEvent::Exited {
        success: false,
        stderr: "Generating\nError: bad\nat x".to_string(),
    });
    match &job.stage {
        Stage::Discard { staged, .. } => assert_eq!(staged, b"/out/.x.tmp.42.7.png"),
        _ => panic!(),
    }
    assert_eq!(error(&job.advance(RenderEvent::Failed)), "Error: bad");
}

#[test]
fn hung_run_is_killed_and_discarded() {
    let job = running().advance(RenderEvent::TimedOut);
    assert!(matches!(job.stage, Stage::Kill { .. }));
    let job = job.advance(RenderEvent::Succeeded);
    assert!(matches!(job.stage, Stage::Discard { .. }));
    assert_eq!(error(&job.advance(RenderEvent::Succeeded)), "mmdc timed out after 30s");
    let job = running().advance(RenderEvent::TimedOut).advance(RenderEvent::Failed);
    assert_eq!(error(&job.advance(RenderEvent::Succeeded)), "mmdc timed out after 30s");
}

#[test]
fn every_other_failure_is_told() {
    assert_eq!(
        error(&start().advance(RenderEvent::Located { mmdc: None })),
        "mmdc not found. Install it with: npm install -g @mermaid-js/mermaid-cli"
    );
    let mmdc = Some(b"m".to_vec());
    assert_eq!(
        error(&render("x", b"/").advance(RenderEvent::Located { mmdc })),
        "output path has no parent directory"
    );
    assert_eq!(error(&located().advance(RenderEvent::Failed)), "creating /out");
    assert_eq!(error(&scratched().advance(RenderEvent::Failed)), "creating temp dir");
    assert_eq!(error(&writing().advance(RenderEvent::Failed)), "writing diagram source");
    assert_eq!(error(&running().advance(RenderEvent::Failed)), "running mmdc");
    assert_eq!(error(&running().advance(RenderEvent::WaitFailed)), "waiting for mmdc");
    let job = running().advance(RenderEvent::Exited { success: true, stderr: String::new() });
    assert_eq!(
        error(&job.advance(RenderEvent::Failed)),
        "moving render into place at /out/x.png"
    );
}

#[test]
fn unrelated_event_changes_nothing() {
    assert!(matches!(start().advance(RenderEvent::TimedOut).stage, Stage::FindMmdc));
    assert!(matches!(running().advance(RenderEvent::Succeeded).stage, Stage::Run { .. }));
    let done = render("", b"/out/x.png").advance(RenderEvent::Succeeded);
    assert_eq!(error(&done), "diagram is empty");
}

#[test]
fn preview_render_stays_in_its_directory() {
    let dir = preview_dir_from(b"/base", 5);
    let output = preview_path_from(&dir, b"/docs/flow.mmd");
    let job = render("x", &output).advance(RenderEvent::Located { mmdc: Some(b"m".to_vec()) });
    match &job.stage {
        Stage::CreateDir { dir: d, .. } => assert_eq!(*d, dir),
        _ => panic!(),
    }
    let job = job
        .advance(RenderEvent::Succeeded)
        .advance(RenderEvent::Scratch { dir: b"/tmp/s".to_vec() })
        .advance(RenderEvent::Written { pid: 1, serial: 0 });
    match job.stage {
        Stage::Run { staged, .. } => {
            assert_eq!(staged, b"/base/0000000000000005/.flow.tmp.1.0.png")
        }
        _ => panic!(),
    }
    assert_eq!(job.output, b"/base/0000000000000005/flow.png");
}

#[test]
fn only_png_is_scaled() {
    assert_eq!(
        strings(&mmdc_arguments(b"i", b"s", b"svg")),
        vec!["-i", "i", "-o", "s", "-b", "white"]
    );
    assert_eq!(strings(&mmdc_arguments(b"i", b"s", b"png")).len(), 8);
}

#[test]
fn staged_files_are_beside_the_output_and_never_collide() {
    assert_eq!(staged_path(b"/o", b"/o/a.svg", 1, 23), b"/o/.a.tmp.1.23.svg");
    assert_ne!(staged_path(b"/o", b"/o/a.svg", 1, 23), staged_path(b"/o", b"/o/a.svg", 12, 3));
    // Renders of different outputs stage different files too, even where their names run together.
    assert_ne!(staged_path(b"/o", b"/o/a.png", 1, 2), staged_path(b"/o", b"/o/a.tmp.1.png", 1, 3));
    assert_ne!(staged_path(b"/o", b"/o/a.png", 1, 2), staged_path(b"/p", b"/p/a.png", 1, 3));
    assert_ne!(staged_path(b"/o", b"/o/.a.tmp.1.2.png", 1, 3), b"/o/.a.tmp.1.2.png");
    assert_eq!(staged_path(b"/o", b"/o/a", 1, 2), b"/o/.a.tmp.1.2.png");
    assert_eq!(staged_path(b"/o", b"/o/..", 1, 2), b"/o/.preview.tmp.1.2.png");
    assert_eq!(
        staged_path(b"/o", &[b'/', 0xff, b'.', 0xfe], 1, 2),
        b"/o/.preview.tmp.1.2.png"
    );
}

#[test]
fn renders_of_one_process_stage_two_files() {
    let mut serials = Serials::new();
    let first = serials.take();
    let second = serials.take();
    assert_eq!((first, second), (0, 1));
    let stage = |serial: u64| match writing().advance(RenderEvent::Written { pid: 42, serial }).stage {
        Stage::Run { staged, .. } => staged,
        _ => panic!(),
    };
    assert_eq!(stage(first), b"/out/.x.tmp.42.0.png");
    assert_eq!(stage(second), b"/out/.x.tmp.42.1.png");
}
