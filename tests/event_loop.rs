use demo_framework::{classify, reduce_events, DemoFramework, FrameEvent, FrameStep, Key, PlatformEvent};

#[test]
fn classify_quit_and_escape() {
    assert_eq!(classify(PlatformEvent::QuitRequested), FrameEvent::Quit);
    assert_eq!(classify(PlatformEvent::KeyDown(Some(Key::Escape))), FrameEvent::Quit);
}

#[test]
fn classify_other_keys_ignored() {
    assert_eq!(classify(PlatformEvent::KeyDown(Some(Key::Other))), FrameEvent::Ignored);
    assert_eq!(classify(PlatformEvent::KeyDown(None)), FrameEvent::Ignored);
    assert_eq!(classify(PlatformEvent::Other), FrameEvent::Ignored);
}

#[test]
fn classify_resize_keeps_size() {
    assert_eq!(classify(PlatformEvent::WindowResized(1024, 768)), FrameEvent::Resized(1024, 768));
    assert_eq!(classify(PlatformEvent::WindowResized(-1, 5)), FrameEvent::Resized(u32::MAX, 5));
}

#[test]
fn reduce_empty_frame() {
    assert_eq!(reduce_events(&vec![]), FrameStep::Frame(None));
}

#[test]
fn reduce_without_resize() {
    let events = vec![FrameEvent::Ignored, FrameEvent::Ignored];
    assert_eq!(reduce_events(&events), FrameStep::Frame(None));
}

#[test]
fn reduce_last_resize_wins() {
    let events = vec![
        FrameEvent::Resized(640, 480),
        FrameEvent::Ignored,
        FrameEvent::Resized(1024, 768),
        FrameEvent::Ignored,
    ];
    assert_eq!(reduce_events(&events), FrameStep::Frame(Some((1024, 768))));
}

#[test]
fn reduce_quit_anywhere_terminates() {
    let first = vec![FrameEvent::Quit, FrameEvent::Resized(1, 2)];
    let middle = vec![FrameEvent::Resized(1, 2), FrameEvent::Quit, FrameEvent::Resized(3, 4)];
    let last = vec![FrameEvent::Ignored, FrameEvent::Resized(3, 4), FrameEvent::Quit];
    assert_eq!(reduce_events(&first), FrameStep::Terminate);
    assert_eq!(reduce_events(&middle), FrameStep::Terminate);
    assert_eq!(reduce_events(&last), FrameStep::Terminate);
}

#[test]
fn new_framework_runs_at_size() {
    let fw = DemoFramework::new(800, 600);
    assert_eq!(fw.width(), 800);
    assert_eq!(fw.height(), 600);
    assert!(fw.is_running());
}

#[test]
fn one_pass_tracks_resize() {
    let mut fw = DemoFramework::new(800, 600);
    assert_eq!(fw.one_pass(&vec![FrameEvent::Ignored]), FrameStep::Frame(None));
    assert_eq!((fw.width(), fw.height()), (800, 600));
    let step = fw.one_pass(&vec![FrameEvent::Resized(1024, 768)]);
    assert_eq!(step, FrameStep::Frame(Some((1024, 768))));
    assert_eq!((fw.width(), fw.height()), (1024, 768));
    assert!(fw.is_running());
}

#[test]
fn one_pass_quit_stops_for_good() {
    let mut fw = DemoFramework::new(800, 600);
    let step = fw.one_pass(&vec![FrameEvent::Resized(10, 20), FrameEvent::Quit]);
    assert_eq!(step, FrameStep::Terminate);
    assert!(!fw.is_running());
    assert_eq!((fw.width(), fw.height()), (800, 600));
    assert_eq!(fw.one_pass(&vec![FrameEvent::Resized(1, 1)]), FrameStep::Terminate);
    assert_eq!((fw.width(), fw.height()), (800, 600));
}

#[test]
fn main_loop_hands_out_each_frame() {
    let frames = vec![
        vec![],
        vec![FrameEvent::Resized(1024, 768), FrameEvent::Ignored],
        vec![FrameEvent::Ignored],
        vec![FrameEvent::Resized(300, 200), FrameEvent::Resized(400, 300)],
    ];
    let mut fw = DemoFramework::new(800, 600);
    let trace = fw.main_loop(&frames);
    assert_eq!(trace, vec![None, Some((1024, 768)), None, Some((400, 300))]);
    assert_eq!((fw.width(), fw.height()), (400, 300));
    assert!(fw.is_running());
}

#[test]
fn main_loop_no_callback_after_quit() {
    let frames = vec![
        vec![FrameEvent::Resized(1024, 768)],
        vec![FrameEvent::Ignored, FrameEvent::Quit, FrameEvent::Resized(5, 5)],
        vec![FrameEvent::Resized(7, 7)],
    ];
    let mut fw = DemoFramework::new(800, 600);
    let trace = fw.main_loop(&frames);
    assert_eq!(trace, vec![Some((1024, 768))]);
    assert!(!fw.is_running());
    assert_eq!((fw.width(), fw.height()), (1024, 768));
}

#[test]
fn main_loop_on_no_frames() {
    let mut fw = DemoFramework::new(800, 600);
    assert_eq!(fw.main_loop(&vec![]), Vec::<Option<(u32, u32)>>::new());
    assert!(fw.is_running());
}

#[test]
fn drivers_agree_on_script() {
    let frames = vec![
        vec![FrameEvent::Resized(640, 480)],
        vec![],
        vec![FrameEvent::Resized(1024, 768), FrameEvent::Ignored],
        vec![FrameEvent::Quit],
        vec![FrameEvent::Resized(1, 1)],
    ];
    let mut owned = DemoFramework::new(800, 600);
    let owned_trace = owned.main_loop(&frames);

    let mut hosted = DemoFramework::new(800, 600);
    let mut hosted_trace = Vec::new();
    for events in frames.iter() {
        if !hosted.is_running() {
            break;
        }
        match hosted.one_pass(events) {
            FrameStep::Frame(r) => hosted_trace.push(r),
            FrameStep::Terminate => {}
        }
    }
    assert_eq!(owned_trace, hosted_trace);
    assert_eq!(owned_trace.len(), 3);
    assert_eq!(owned.is_running(), hosted.is_running());
    assert_eq!((owned.width(), owned.height()), (hosted.width(), hosted.height()));
}
