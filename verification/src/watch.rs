//! The change stream: how paths reported by the file watcher become hints
//! for the browser, and how one subscriber's stream moves between its states.

use vstd::prelude::*;
use vstd::string::*;
use crate::paths::{join_path, joined_path, slice_text, text};
use serde_json::Value;

verus! {

/// How many change events wait between the watcher and a subscriber's
/// stream; the watcher blocks while the queue is full.
pub const QUEUE_CAPACITY: usize = 1;

/// The seconds between two keep-alive frames on an idle stream.
pub const KEEP_ALIVE_SECONDS: u64 = 10;

/// The comment that a keep-alive frame carries.
pub const KEEP_ALIVE_TEXT: &'static str = "keep-alive-text";

/// The single field of a frame's payload.
pub const PAYLOAD_FIELD: &'static str = "hrefs";

/// The path that leads from `root` to `path`, when there is one.
pub uninterp spec fn relative_path(path: Seq<char>, root: Seq<char>) -> Option<Seq<char>>;

/// The JSON text of an object with the one field `key`, whose value is the
/// array of `items`: a string where there is one, `null` where there is none.
pub uninterp spec fn json_object(key: Seq<char>, items: Seq<Option<Seq<char>>>) -> Seq<char>;

/// A step to the parent directory.
pub open spec fn is_parent(component: Seq<char>) -> bool {
    component =~= seq!['.', '.']
}

/// A component that names nothing: an empty one, or the current directory.
pub open spec fn is_idle(component: Seq<char>) -> bool {
    component.len() == 0 || component =~= seq!['.']
}

/// How deep below the root a walk stands once it has taken `component`,
/// having stood at `depth` before.
pub open spec fn depth_after(component: Seq<char>, depth: int) -> int {
    if is_parent(component) {
        depth - 1
    } else if is_idle(component) {
        depth
    } else {
        depth + 1
    }
}

/// Whether the walk along `rel` ever stands above the root, when it stands
/// at `depth` below it and has read `rel` up to `i`, the component at hand
/// beginning at `start`. Components are parted by slashes.
pub open spec fn sinks_from(rel: Seq<char>, i: int, start: int, depth: int) -> bool
    decreases rel.len() - i,
{
    if i < 0 || i > rel.len() {
        false
    } else if i == rel.len() {
        depth_after(rel.subrange(start, i), depth) < 0
    } else if rel[i] == '/' {
        depth_after(rel.subrange(start, i), depth) < 0 || sinks_from(
            rel,
            i + 1,
            i + 1,
            depth_after(rel.subrange(start, i), depth),
        )
    } else {
        sinks_from(rel, i + 1, start, depth)
    }
}

/// The characters of `rel` from `start` to `end` are one whole component:
/// they hold no slash, and a slash or an end of the path stands on either
/// side.
pub open spec fn is_component(rel: Seq<char>, start: int, end: int) -> bool {
    &&& 0 <= start <= end <= rel.len()
    &&& start == 0 || rel[start - 1] == '/'
    &&& end == rel.len() || rel[end] == '/'
    &&& forall|k: int| start <= k < end ==> rel[k] != '/'
}

/// No component of the path is a step to the parent directory.
pub open spec fn has_no_parent_step(rel: Seq<char>) -> bool {
    forall|start: int, end: int| #[trigger]
        is_component(rel, start, end) ==> !is_parent(rel.subrange(start, end))
}

/// A relative path leaves the root when it is absolute after all, or when
/// walking its components from the root ever climbs above the root: when
/// some beginning of it holds more steps to the parent than names.
pub open spec fn leaves_root(rel: Seq<char>) -> bool {
    ||| rel.len() >= 1 && rel[0] == '/'
    ||| sinks_from(rel, 0, 0, 0)
}

/// The hint for a path relative to the watch root, under the style prefix.
pub open spec fn hint_for(relative: Option<Seq<char>>, style_base: Seq<char>) -> Option<
    Seq<char>,
> {
    match relative {
        Some(rel) => if leaves_root(rel) {
            None
        } else {
            Some("/"@ + joined_path(style_base, rel))
        },
        None => None,
    }
}

/// The hint for a changed path; there is none without a resolved root.
pub open spec fn hint_of(path: Seq<char>, root: Option<Seq<char>>, style_base: Seq<char>) -> Option<
    Seq<char>,
> {
    match root {
        Some(r) => hint_for(relative_path(path, r), style_base),
        None => None,
    }
}

/// The hint for one entry of a change event; an entry whose path is not
/// text has none.
pub open spec fn hint_of_entry(
    entry: Option<String>,
    root: Option<Seq<char>>,
    style_base: Seq<char>,
) -> Option<Seq<char>> {
    match entry {
        Some(path) => hint_of(path@, root, style_base),
        None => None,
    }
}

/// The hints for the paths of one change event, one for one.
pub open spec fn hints_of(
    paths: Seq<Option<String>>,
    root: Option<Seq<char>>,
    style_base: Seq<char>,
) -> Seq<Option<Seq<char>>> {
    Seq::new(paths.len(), |i: int| hint_of_entry(paths[i], root, style_base))
}

/// The texts of a list of optional strings.
pub open spec fn texts(items: Seq<Option<String>>) -> Seq<Option<Seq<char>>> {
    Seq::new(items.len(), |i: int| text(items[i]))
}

/// `pathdiff::diff_paths(path, root)` on two paths given as text, the result
/// taken back as text. The contract only names the result.
#[verifier::external_body]
fn relative_from(path: &str, root: &str) -> (r: Option<String>)
    ensures
        text(r) == relative_path(path@, root@),
{
    pathdiff::diff_paths(path, root).map(|p| p.to_string_lossy().into_owned())
}

/// Renders a `serde_json::Value` object with the one field `key`, an array
/// that holds each item as a JSON string or `null`, through the value's
/// `to_string`. The contract only names the result.
#[verifier::external_body]
fn render_object(key: &str, items: &Vec<Option<String>>) -> (r: String)
    ensures
        r@ == json_object(key@, texts(items@)),
{
    let mut object = serde_json::Map::new();
    object.insert(key.to_string(), items.iter().cloned().collect());
    Value::Object(object).to_string()
}

/// Takes one component of a path, the characters from `start` to `end`, and
/// gives the depth after it; `None` where it climbs above the root.
fn take_component(rel: &str, start: usize, end: usize, depth: usize) -> (r: Option<usize>)
    requires
        start <= end <= rel@.len(),
        depth <= start,
    ensures
        match r {
            Some(d) => d == depth_after(rel@.subrange(start as int, end as int), depth as int),
            None => depth_after(rel@.subrange(start as int, end as int), depth as int) < 0,
        },
        r.is_some() ==> r.unwrap() <= end,
{
    let ghost component = rel@.subrange(start as int, end as int);
    let len = end - start;
    if len == 2 && rel.get_char(start) == '.' && rel.get_char(start + 1) == '.' {
        assert(component =~= seq!['.', '.']);
        if depth == 0 {
            None
        } else {
            Some(depth - 1)
        }
    } else if len == 0 || (len == 1 && rel.get_char(start) == '.') {
        assert(len == 1 ==> component =~= seq!['.']);
        assert(!is_parent(component));
        Some(depth)
    } else {
        assert(!is_parent(component)) by {
            if len == 2 {
                assert(component[0] == rel@[start as int]);
                assert(component[1] == rel@[start + 1]);
            }
        }
        assert(!is_idle(component)) by {
            if len == 1 {
                assert(component[0] == rel@[start as int]);
            }
        }
        Some(depth + 1)
    }
}

/// Tells whether a relative path leaves the root.
pub fn escapes(rel: &str) -> (r: bool)
    ensures
        r == leaves_root(rel@),
{
    let n = rel.unicode_len();
    if n >= 1 && rel.get_char(0) == '/' {
        return true;
    }
    let mut i: usize = 0;
    let mut start: usize = 0;
    let mut depth: usize = 0;
    while i < n
        invariant
            n == rel@.len(),
            start <= i <= n,
            depth <= start,
            leaves_root(rel@) == sinks_from(rel@, i as int, start as int, depth as int),
        decreases n - i,
    {
        if rel.get_char(i) == '/' {
            match take_component(rel, start, i, depth) {
                Some(d) => {
                    depth = d;
                },
                None => {
                    return true;
                },
            }
            start = i + 1;
        }
        i += 1;
    }
    take_component(rel, start, n, depth).is_none()
}

/// Turns a path relative to the watch root into a hint: the path under the
/// style prefix, with a leading slash. There is no hint without a relative
/// path, nor for one that leaves the root.
pub fn href_hint(relative: Option<String>, style_base: &str) -> (r: Option<String>)
    ensures
        text(r) == hint_for(text(relative), style_base@),
{
    match relative {
        Some(rel) => {
            if escapes(rel.as_str()) {
                None
            } else {
                let below = join_path(style_base, rel.as_str());
                let mut out = String::from_str("/");
                out.append(below.as_str());
                Some(out)
            }
        },
        None => None,
    }
}

/// The hint for one changed path. `root` is the resolved watch root, or
/// `None` where it could not be resolved.
pub fn hint(path: &str, root: Option<&str>, style_base: &str) -> (r: Option<String>)
    ensures
        text(r) == hint_of(path@, slice_text(root), style_base@),
{
    match root {
        Some(r) => href_hint(relative_from(path, r), style_base),
        None => None,
    }
}

/// The hints for the paths of one change event: as many as there are paths,
/// in their order, each the hint of its path alone. A path that is not text
/// stands in the event as `None` and gets no hint.
pub fn hints(paths: &Vec<Option<String>>, root: Option<&str>, style_base: &str) -> (r: Vec<
    Option<String>,
>)
    ensures
        r@.len() == paths@.len(),
        forall|i: int|
            0 <= i < paths@.len() ==> text(#[trigger] r@[i]) == hint_of_entry(
                paths@[i],
                slice_text(root),
                style_base@,
            ),
        texts(r@) == hints_of(paths@, slice_text(root), style_base@),
{
    let mut out: Vec<Option<String>> = Vec::new();
    let mut i: usize = 0;
    while i < paths.len()
        invariant
            i <= paths@.len(),
            out@.len() == i,
            forall|j: int|
                0 <= j < i ==> text(#[trigger] out@[j]) == hint_of_entry(
                    paths@[j],
                    slice_text(root),
                    style_base@,
                ),
        decreases paths@.len() - i,
    {
        let h = match &paths[i] {
            Some(path) => hint(path.as_str(), root, style_base),
            None => None,
        };
        out.push(h);
        i += 1;
    }
    assert(texts(out@) =~= hints_of(paths@, slice_text(root), style_base@));
    out
}

/// The payload of a data frame: a JSON object whose one field holds the
/// hints in their order.
pub fn payload(hints: &Vec<Option<String>>) -> (r: String)
    ensures
        r@ == json_object(PAYLOAD_FIELD@, texts(hints@)),
{
    render_object(PAYLOAD_FIELD, hints)
}

/// Where a subscriber's stream stands.
#[derive(Clone, Copy, Debug, PartialEq, Eq, Structural)]
pub enum StreamState {
    Init,
    Watching,
    Emitting,
    Closed,
}

/// What happened to a subscriber's stream.
#[derive(Clone, Debug, PartialEq, Eq)]
pub enum StreamEvent {
    /// The subscriber connected.
    Subscribed,
    /// The watcher reported these paths together; `None` stands for a path
    /// that is not text.
    Changed(Vec<Option<String>>),
    /// The last frame reached the subscriber.
    Sent,
    /// The subscriber went away, or a frame could not be written.
    Disconnected,
    /// The watcher failed.
    WatcherFailed,
}

/// What the caller does next for a subscriber's stream.
#[derive(Clone, Debug, PartialEq, Eq)]
pub enum StreamAction {
    /// Start a recursive watch on the root, with a queue of one event.
    StartWatch,
    /// Send a data frame with this payload.
    Send(String),
    /// Wait for the next event.
    Await,
    /// Release the watcher and the queue.
    TearDown,
    /// Nothing: the event does not concern the stream in this state.
    Ignore,
}

/// The state that follows `state` on `event`.
pub open spec fn next_state(state: StreamState, event: StreamEvent) -> StreamState {
    match (state, event) {
        (StreamState::Closed, _) => StreamState::Closed,
        (_, StreamEvent::Disconnected) => StreamState::Closed,
        (_, StreamEvent::WatcherFailed) => StreamState::Closed,
        (StreamState::Init, StreamEvent::Subscribed) => StreamState::Watching,
        (StreamState::Watching, StreamEvent::Changed(_)) => StreamState::Emitting,
        (StreamState::Emitting, StreamEvent::Sent) => StreamState::Watching,
        _ => state,
    }
}

/// Whether `action` is what `event` asks for in `state`.
pub open spec fn answers(
    state: StreamState,
    event: StreamEvent,
    root: Option<Seq<char>>,
    style_base: Seq<char>,
    action: StreamAction,
) -> bool {
    match (state, event) {
        (StreamState::Closed, _) => action is Ignore,
        (StreamState::Init, StreamEvent::Disconnected) => action is Ignore,
        (StreamState::Init, StreamEvent::WatcherFailed) => action is Ignore,
        (_, StreamEvent::Disconnected) => action is TearDown,
        (_, StreamEvent::WatcherFailed) => action is TearDown,
        (StreamState::Init, StreamEvent::Subscribed) => action is StartWatch,
        (StreamState::Watching, StreamEvent::Changed(paths)) => {
            &&& action is Send
            &&& action->Send_0@ == json_object(PAYLOAD_FIELD@, hints_of(paths@, root, style_base))
        },
        (StreamState::Emitting, StreamEvent::Sent) => action is Await,
        _ => action is Ignore,
    }
}

/// Moves a subscriber's stream on by one event and says what to do next. A
/// change that arrives while the stream is watching becomes one data frame
/// with a hint for each path; a disconnect or a watcher failure closes the
/// stream for good.
pub fn step(state: StreamState, event: &StreamEvent, root: Option<&str>, style_base: &str) -> (r: (
    StreamState,
    StreamAction,
))
    ensures
        r.0 == next_state(state, *event),
        answers(state, *event, slice_text(root), style_base@, r.1),
{
    match state {
        StreamState::Closed => (StreamState::Closed, StreamAction::Ignore),
        StreamState::Init => match event {
            StreamEvent::Subscribed => (StreamState::Watching, StreamAction::StartWatch),
            StreamEvent::Disconnected => (StreamState::Closed, StreamAction::Ignore),
            StreamEvent::WatcherFailed => (StreamState::Closed, StreamAction::Ignore),
            _ => (StreamState::Init, StreamAction::Ignore),
        },
        StreamState::Watching => match event {
            StreamEvent::Changed(paths) => {
                let found = hints(paths, root, style_base);
                (StreamState::Emitting, StreamAction::Send(payload(&found)))
            },
            StreamEvent::Disconnected => (StreamState::Closed, StreamAction::TearDown),
            StreamEvent::WatcherFailed => (StreamState::Closed, StreamAction::TearDown),
            _ => (StreamState::Watching, StreamAction::Ignore),
        },
        StreamState::Emitting => match event {
            StreamEvent::Sent => (StreamState::Watching, StreamAction::Await),
            StreamEvent::Disconnected => (StreamState::Closed, StreamAction::TearDown),
            StreamEvent::WatcherFailed => (StreamState::Closed, StreamAction::TearDown),
            _ => (StreamState::Emitting, StreamAction::Ignore),
        },
    }
}

/// A closed stream stays closed, whatever happens, and a disconnect or a
/// watcher failure closes a stream from any state.
pub proof fn closed_is_final(state: StreamState, event: StreamEvent)
    ensures
        next_state(StreamState::Closed, event) == StreamState::Closed,
        event is Disconnected || event is WatcherFailed ==> next_state(state, event)
            == StreamState::Closed,
        next_state(state, event) == StreamState::Closed ==> state == StreamState::Closed || event
            is Disconnected || event is WatcherFailed,
{
}

proof fn lemma_walk_without_parents(rel: Seq<char>, i: int, start: int, depth: int)
    requires
        0 <= start <= i <= rel.len(),
        start == 0 || rel[start - 1] == '/',
        forall|k: int| start <= k < i ==> rel[k] != '/',
        depth >= 0,
        has_no_parent_step(rel),
    ensures
        !sinks_from(rel, i, start, depth),
    decreases rel.len() - i,
{
    if i == rel.len() || rel[i] == '/' {
        assert(is_component(rel, start, i));
        if i < rel.len() {
            lemma_walk_without_parents(
                rel,
                i + 1,
                i + 1,
                depth_after(rel.subrange(start, i), depth),
            );
        }
    } else {
        lemma_walk_without_parents(rel, i + 1, start, depth);
    }
}

/// A path that is not absolute and never steps to the parent directory stays
/// below the root, so it has a hint: a slash and the path under the style
/// prefix.
pub proof fn plain_path_has_a_hint(rel: Seq<char>, style_base: Seq<char>)
    requires
        rel.len() == 0 || rel[0] != '/',
        has_no_parent_step(rel),
    ensures
        !leaves_root(rel),
        hint_for(Some(rel), style_base) == Some("/"@ + joined_path(style_base, rel)),
{
    lemma_walk_without_parents(rel, 0, 0, 0);
}

/// A path that is absolute, or whose first component is a step to the parent
/// directory, leaves the root and has no hint, and neither has a path that
/// is missing.
pub proof fn outside_path_has_no_hint(rel: Seq<char>, style_base: Seq<char>)
    requires
        (rel.len() >= 1 && rel[0] == '/') || (rel.len() >= 2 && rel[0] == '.' && rel[1] == '.' && (
        rel.len() == 2 || rel[2] == '/')),
    ensures
        leaves_root(rel),
        hint_for(Some(rel), style_base).is_none(),
        hint_for(None, style_base).is_none(),
{
    if !(rel.len() >= 1 && rel[0] == '/') {
        assert(rel.subrange(0, 2) =~= seq!['.', '.']);
        assert(depth_after(rel.subrange(0, 2), 0) < 0);
        assert(sinks_from(rel, 2, 0, 0));
        assert(sinks_from(rel, 1, 0, 0));
        assert(sinks_from(rel, 0, 0, 0));
    }
}

proof fn lemma_walk_of_a_beginning(rel: Seq<char>, end: int, i: int, start: int, depth: int)
    requires
        0 <= start <= i <= end <= rel.len(),
        end == rel.len() || rel[end] == '/',
        sinks_from(rel.subrange(0, end), i, start, depth),
    ensures
        sinks_from(rel, i, start, depth),
    decreases end - i,
{
    let head = rel.subrange(0, end);
    assert(head.subrange(start, i) =~= rel.subrange(start, i));
    if i < end {
        assert(head[i] == rel[i]);
        if rel[i] == '/' {
            let d = depth_after(rel.subrange(start, i), depth);
            if d >= 0 {
                lemma_walk_of_a_beginning(rel, end, i + 1, i + 1, d);
            }
        } else {
            lemma_walk_of_a_beginning(rel, end, i + 1, start, depth);
        }
    }
}

/// Climbing out is final: a path leaves the root as soon as some beginning
/// of it, cut where a component ends, leaves the root, whatever follows.
pub proof fn climbing_out_is_final(rel: Seq<char>, end: int)
    requires
        0 <= end <= rel.len(),
        end == rel.len() || rel[end] == '/',
        leaves_root(rel.subrange(0, end)),
    ensures
        leaves_root(rel),
{
    let head = rel.subrange(0, end);
    if head.len() >= 1 && head[0] == '/' {
        assert(rel[0] == head[0]);
    } else {
        lemma_walk_of_a_beginning(rel, end, 0, 0, 0);
    }
}

} // verus!
