//! Route paths and the reaction to a route change.
//!
//! A navigation event carries a URL path. Under the demo shell a path has
//! the shape `/demos/{segment}`: [`parse`] classifies any path as outside
//! the shell, as the bare menu (no segment selected), or as carrying a
//! segment (the first one after the prefix; deeper sub-paths belong to
//! nested views). [`handle_route_change`] then drives the shared state:
//! it resolves a carried segment against the registry, writes the new
//! selection into the holder — notifying its observers — when resolution
//! succeeds or when no segment is selected, and leaves the state
//! untouched when resolution fails.

use vstd::prelude::*;

use crate::holder::NavigationHolder;
use crate::registry::DemoRegistry;
use crate::registry::Renderer;
use crate::registry::has_segment;
use crate::registry::lemma_lookup_absent;
use crate::registry::lemma_lookup_present;
use crate::registry::lookup;

verus! {

/// The shape of a route path, over character sequences.
pub enum RoutePathModel {
    /// The path is not under the `/demos` prefix.
    Outside,
    /// The path is `/demos` or `/demos/`: the menu with no selection.
    Menu,
    /// The path is `/demos/{segment}[/...]`: the carried segment.
    Segment(Seq<char>),
}

/// The shape of a route path, as parsed.
pub enum RoutePath {
    /// The path is not under the `/demos` prefix.
    Outside,
    /// The path is `/demos` or `/demos/`: the menu with no selection.
    Menu,
    /// The path is `/demos/{segment}[/...]`: the carried segment.
    Segment(String),
}

impl View for RoutePath {
    type V = RoutePathModel;

    open spec fn view(&self) -> RoutePathModel {
        match self {
            RoutePath::Outside => RoutePathModel::Outside,
            RoutePath::Menu => RoutePathModel::Menu,
            RoutePath::Segment(seg) => RoutePathModel::Segment(seg@),
        }
    }
}

/// The characters of the demo shell's path prefix.
pub open spec fn demos_prefix() -> Seq<char> {
    seq!['/', 'd', 'e', 'm', 'o', 's']
}

/// Whether `path` lies under the demo shell: it starts with `/demos`,
/// followed by nothing or by a `/`.
pub open spec fn under_demos(path: Seq<char>) -> bool {
    &&& path.len() >= 6
    &&& path.subrange(0, 6) == demos_prefix()
    &&& (path.len() == 6 || path[6] == '/')
}

/// The index of the first `/` at or after position `i`, or the length of
/// `path` if there is none: where the segment starting at `i` ends.
pub open spec fn segment_end(path: Seq<char>, i: int) -> int
    decreases path.len() - i,
{
    if i >= path.len() || path[i] == '/' {
        i
    } else {
        segment_end(path, i + 1)
    }
}

/// What any path parses to: outside the shell, the bare menu, or the
/// first segment after the `/demos/` prefix.
pub open spec fn parse_route(path: Seq<char>) -> RoutePathModel {
    if !under_demos(path) {
        RoutePathModel::Outside
    } else if path.len() <= 7 {
        RoutePathModel::Menu
    } else {
        RoutePathModel::Segment(path.subrange(7, segment_end(path, 7)))
    }
}

/// Whether `path` starts with `/demos`, followed by nothing or by `/`.
fn check_under_demos(path: &str) -> (r: bool)
    ensures
        r == under_demos(path@),
{
    let n = path.unicode_len();
    if n < 6 {
        return false;
    }
    let prefix_ok = path.get_char(0) == '/' && path.get_char(1) == 'd' && path.get_char(2) == 'e'
        && path.get_char(3) == 'm' && path.get_char(4) == 'o' && path.get_char(5) == 's';
    proof {
        if prefix_ok {
            assert(path@.subrange(0, 6) =~= demos_prefix());
        } else {
            if path@.subrange(0, 6) == demos_prefix() {
                assert(forall|k: int|
                    0 <= k < 6 ==> path@.subrange(0, 6)[k] == path@[k]);
                assert(false);
            }
        }
    }
    if !prefix_ok {
        return false;
    }
    n == 6 || path.get_char(6) == '/'
}

/// Parses a route path: outside the shell, the bare menu, or the first
/// segment after the `/demos/` prefix.
pub fn parse(path: &str) -> (r: RoutePath)
    ensures
        r@ == parse_route(path@),
{
    if !check_under_demos(path) {
        return RoutePath::Outside;
    }
    let n = path.unicode_len();
    if n <= 7 {
        return RoutePath::Menu;
    }
    let mut end: usize = 7;
    while end < n && path.get_char(end) != '/'
        invariant
            7 <= end <= n,
            n == path@.len(),
            segment_end(path@, 7) == segment_end(path@, end as int),
        decreases n - end,
    {
        end = end + 1;
    }
    assert(segment_end(path@, 7) == end as int);
    let seg = path.substring_char(7, end);
    RoutePath::Segment(seg.to_owned())
}

/// What a route change leads to.
#[derive(Clone, Copy, Debug, PartialEq, Eq, Structural)]
pub enum RouteTarget {
    /// Show the renderer registered for the path's segment, by handle.
    Demo(u64),
    /// The path carried a segment no demo is registered under: show the
    /// fallback "demo not found" renderer.
    NotFound,
    /// The path carried no segment: show the default menu view.
    NoSelection,
    /// The path is not under the demo shell at all.
    Outside,
}

/// The reaction to one route change: what to show, and which observer
/// handles to invoke now, in registration order.
pub struct RouteOutcome {
    pub target: RouteTarget,
    pub notified: Vec<u64>,
}

/// Reacts to a route change to `path`.
///
/// A path outside the shell leaves the state alone. A path with no
/// segment selects the empty name — observers are notified — and shows
/// the default menu view. A carried segment that resolves is written
/// into the holder — observers are notified — and its renderer is shown;
/// one that does not resolve shows the fallback renderer and leaves the
/// navigation state exactly as it was.
pub fn handle_route_change(
    registry: &DemoRegistry,
    holder: &mut NavigationHolder,
    path: &str,
) -> (outcome: RouteOutcome)
    ensures
        parse_route(path@) is Outside ==> NavigationHolder::same_state(*old(holder), *final(holder))
            && outcome.target == RouteTarget::Outside && outcome.notified@ == Seq::<u64>::empty(),
        parse_route(path@) is Menu ==> NavigationHolder::write_step(
            *old(holder),
            *final(holder),
            Seq::<char>::empty(),
        ) && outcome.target == RouteTarget::NoSelection && outcome.notified@ == old(
            holder,
        ).observers(),
        parse_route(path@) matches RoutePathModel::Segment(seg) ==> {
            &&& (match lookup(registry@, seg) {
                Some(handle) => outcome.target == RouteTarget::Demo(handle),
                None => outcome.target == RouteTarget::NotFound,
            })
            &&& has_segment(registry@, seg) ==> NavigationHolder::write_step(
                *old(holder),
                *final(holder),
                seg,
            ) && outcome.notified@ == old(holder).observers()
            &&& !has_segment(registry@, seg) ==> NavigationHolder::same_state(
                *old(holder),
                *final(holder),
            ) && outcome.notified@ == Seq::<u64>::empty()
        },
{
    let parsed = parse(path);
    match parsed {
        RoutePath::Outside => RouteOutcome { target: RouteTarget::Outside, notified: Vec::new() },
        RoutePath::Menu => {
            proof {
                reveal_strlit("");
                assert(""@ =~= Seq::<char>::empty());
            }
            let notified = holder.write("");
            RouteOutcome { target: RouteTarget::NoSelection, notified }
        },
        RoutePath::Segment(seg) => {
            match registry.resolve(seg.as_str()) {
                Renderer::Demo(handle) => {
                    proof {
                        if !has_segment(registry@, seg@) {
                            lemma_lookup_absent(registry@, seg@);
                        }
                    }
                    let notified = holder.write(seg.as_str());
                    RouteOutcome { target: RouteTarget::Demo(handle), notified }
                },
                Renderer::Fallback => {
                    proof {
                        if has_segment(registry@, seg@) {
                            lemma_lookup_present(registry@, seg@);
                        }
                    }
                    RouteOutcome { target: RouteTarget::NotFound, notified: Vec::new() }
                },
            }
        },
    }
}

} // verus!
