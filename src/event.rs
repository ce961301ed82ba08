use vstd::prelude::*;

verus! {

/// A key the loop tells apart from the others.
#[derive(Clone, Copy, Debug, PartialEq, Eq, Structural)]
pub enum Key {
    Escape,
    Other,
}

/// What the platform's event source reported, as far as the loop reads it.
#[derive(Clone, Copy, Debug, PartialEq, Eq, Structural)]
pub enum PlatformEvent {
    /// The user or the system asked the application to close.
    QuitRequested,
    /// A key went down; `None` when the platform could not name it.
    KeyDown(Option<Key>),
    /// The window was resized, in the platform's signed pixel units.
    WindowResized(i32, i32),
    /// Anything else.
    Other,
}

/// A platform event as the loop classifies it.
#[derive(Clone, Copy, Debug, PartialEq, Eq, Structural)]
pub enum FrameEvent {
    Quit,
    Resized(u32, u32),
    Ignored,
}

/// What one frame's events ask of the loop.
#[derive(Clone, Copy, Debug, PartialEq, Eq)]
pub enum FrameStep {
    /// A quit was seen: no callback runs any more.
    Terminate,
    /// Run the per-frame callback with the frame's last resize, if any.
    Frame(Option<(u32, u32)>),
}

pub open spec fn classify_spec(e: PlatformEvent) -> FrameEvent {
    match e {
        PlatformEvent::QuitRequested => FrameEvent::Quit,
        PlatformEvent::KeyDown(Some(Key::Escape)) => FrameEvent::Quit,
        PlatformEvent::WindowResized(w, h) => FrameEvent::Resized(w as u32, h as u32),
        _ => FrameEvent::Ignored,
    }
}

/// The most recent resize among `s`, or `None` when `s` holds none.
pub open spec fn last_resize(s: Seq<FrameEvent>) -> Option<(u32, u32)>
    decreases s.len(),
{
    if s.len() == 0 {
        None
    } else {
        match s.last() {
            FrameEvent::Resized(w, h) => Some((w, h)),
            _ => last_resize(s.drop_last()),
        }
    }
}

pub open spec fn has_quit(s: Seq<FrameEvent>) -> bool {
    exists|i: int| 0 <= i < s.len() && s[i] == FrameEvent::Quit
}

pub open spec fn frame_step(s: Seq<FrameEvent>) -> FrameStep {
    if has_quit(s) {
        FrameStep::Terminate
    } else {
        FrameStep::Frame(last_resize(s))
    }
}

/// Classifies one platform event: a quit request or the escape key quits,
/// a resize keeps its size, everything else is ignored.
pub fn classify(e: PlatformEvent) -> (r: FrameEvent)
    ensures
        r == classify_spec(e),
{
    match e {
        PlatformEvent::QuitRequested => FrameEvent::Quit,
        PlatformEvent::KeyDown(Some(Key::Escape)) => FrameEvent::Quit,
        PlatformEvent::WindowResized(w, h) => FrameEvent::Resized(w as u32, h as u32),
        _ => FrameEvent::Ignored,
    }
}

/// Reduces the events drained in one frame: any quit terminates, otherwise
/// the frame carries the last resize.
pub fn reduce_events(events: &Vec<FrameEvent>) -> (r: FrameStep)
    ensures
        r == frame_step(events@),
{
    let mut resized: Option<(u32, u32)> = None;
    let mut i: usize = 0;
    while i < events.len()
        invariant
            0 <= i <= events@.len(),
            resized == last_resize(events@.subrange(0, i as int)),
            forall|j: int| 0 <= j < i ==> events@[j] != FrameEvent::Quit,
        decreases events@.len() - i,
    {
        let ghost prefix = events@.subrange(0, i as int);
        let ghost next = events@.subrange(0, i + 1);
        assert(next.drop_last() =~= prefix);
        match events[i] {
            FrameEvent::Quit => {
                return FrameStep::Terminate;
            },
            FrameEvent::Resized(w, h) => {
                resized = Some((w, h));
            },
            FrameEvent::Ignored => {},
        }
        i = i + 1;
    }
    assert(events@.subrange(0, events@.len() as int) =~= events@);
    FrameStep::Frame(resized)
}

/// A frame's reduced resize is the last resize event among its events: no
/// resize follows it, and there is none at all when the result is `None`.
pub proof fn lemma_last_resize_is_last(s: Seq<FrameEvent>)
    ensures
        match last_resize(s) {
            Some((w, h)) => exists|i: int|
                0 <= i < s.len() && s[i] == FrameEvent::Resized(w, h) && forall|j: int|
                    i < j < s.len() ==> !(#[trigger] s[j] is Resized),
            None => forall|j: int| 0 <= j < s.len() ==> !(#[trigger] s[j] is Resized),
        },
    decreases s.len(),
{
    if s.len() > 0 {
        let t = s.drop_last();
        lemma_last_resize_is_last(t);
        match s.last() {
            FrameEvent::Resized(w, h) => {
                assert(s[s.len() - 1] == FrameEvent::Resized(w, h));
            },
            _ => {
                match last_resize(t) {
                    Some((w, h)) => {
                        let i = choose|i: int|
                            0 <= i < t.len() && t[i] == FrameEvent::Resized(w, h) && forall|j: int|
                                i < j < t.len() ==> !(#[trigger] t[j] is Resized);
                        assert(s[i] == t[i]);
                        assert forall|j: int| i < j < s.len() implies !(#[trigger] s[j] is Resized) by {
                            if j < t.len() {
                                assert(s[j] == t[j]);
                            }
                        }
                    },
                    None => {
                        assert forall|j: int| 0 <= j < s.len() implies !(#[trigger] s[j] is Resized) by {
                            if j < t.len() {
                                assert(s[j] == t[j]);
                            }
                        }
                    },
                }
            },
        }
    }
}

} // verus!
