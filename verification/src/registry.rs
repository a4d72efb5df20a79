//! The demo registry and the route-segment dispatcher.
//!
//! A [`DemoRegistry`] is the ordered table of demos: one entry per demo,
//! each with its route segment, the label shown in the menu, and the
//! handle of the renderer registered for it. Segments are unique;
//! [`DemoRegistry::resolve`] maps any string to the renderer registered
//! for an exact match, or to the fallback renderer when there is none.

use vstd::prelude::*;

verus! {

/// One registered demo: its route segment, its menu label, and the
/// handle of the renderer that shows it.
pub struct DemoEntry {
    pub path_segment: String,
    pub display_label: String,
    pub renderer: u64,
}

/// The mathematical value of a [`DemoEntry`]: both strings as character
/// sequences, and the renderer handle.
pub struct DemoEntryModel {
    pub path_segment: Seq<char>,
    pub display_label: Seq<char>,
    pub renderer: u64,
}

impl View for DemoEntry {
    type V = DemoEntryModel;

    open spec fn view(&self) -> DemoEntryModel {
        DemoEntryModel {
            path_segment: self.path_segment@,
            display_label: self.display_label@,
            renderer: self.renderer,
        }
    }
}

/// What a route segment resolves to: the renderer registered for it, or
/// the fallback "demo not found" renderer. Resolution is total: it never
/// fails, an unknown segment is an ordinary outcome.
#[derive(Clone, Copy, Debug, PartialEq, Eq, Structural)]
pub enum Renderer {
    /// The renderer registered for the matched segment, by its handle.
    Demo(u64),
    /// The designated "demo not found" renderer.
    Fallback,
}

/// Whether some entry carries the segment `s`.
pub open spec fn has_segment(entries: Seq<DemoEntryModel>, s: Seq<char>) -> bool {
    exists|i: int| 0 <= i < entries.len() && entries[i].path_segment == s
}

/// No two entries carry the same segment.
pub open spec fn distinct_segments(entries: Seq<DemoEntryModel>) -> bool {
    forall|i: int, j: int|
        0 <= i < j < entries.len() ==> entries[i].path_segment != entries[j].path_segment
}

/// The renderer handle of the first entry whose segment is `s`, if any.
pub open spec fn lookup(entries: Seq<DemoEntryModel>, s: Seq<char>) -> Option<u64>
    decreases entries.len(),
{
    if entries.len() == 0 {
        None
    } else if entries[0].path_segment == s {
        Some(entries[0].renderer)
    } else {
        lookup(entries.drop_first(), s)
    }
}

/// What resolution returns for `s` against `entries`: the first matching
/// entry's renderer, or the fallback.
pub open spec fn renderer_for(entries: Seq<DemoEntryModel>, s: Seq<char>) -> Renderer {
    match lookup(entries, s) {
        Some(handle) => Renderer::Demo(handle),
        None => Renderer::Fallback,
    }
}

/// A segment carried by no entry looks up to nothing: on such input
/// resolution yields the fallback renderer.
pub proof fn lemma_lookup_absent(entries: Seq<DemoEntryModel>, s: Seq<char>)
    requires
        !has_segment(entries, s),
    ensures
        lookup(entries, s) is None,
    decreases entries.len(),
{
    if entries.len() > 0 {
        assert(entries[0].path_segment != s);
        assert(forall|i: int|
            0 <= i < entries.drop_first().len() ==> entries.drop_first()[i] == entries[i + 1]);
        lemma_lookup_absent(entries.drop_first(), s);
    }
}

/// A segment carried by some entry looks up to a renderer: resolution
/// never falls back on a registered segment.
pub proof fn lemma_lookup_present(entries: Seq<DemoEntryModel>, s: Seq<char>)
    requires
        has_segment(entries, s),
    ensures
        lookup(entries, s) is Some,
    decreases entries.len(),
{
    if entries[0].path_segment != s {
        let i = choose|i: int| 0 <= i < entries.len() && entries[i].path_segment == s;
        assert(entries.drop_first()[i - 1] == entries[i]);
        lemma_lookup_present(entries.drop_first(), s);
    }
}

/// With distinct segments, every registered segment looks up to the
/// renderer of its own entry: resolution returns the renderer associated
/// with the segment at registration time.
pub proof fn lemma_lookup_registered(entries: Seq<DemoEntryModel>, i: int)
    requires
        distinct_segments(entries),
        0 <= i < entries.len(),
    ensures
        lookup(entries, entries[i].path_segment) == Some(entries[i].renderer),
    decreases entries.len(),
{
    if i > 0 {
        assert(entries[0].path_segment != entries[i].path_segment);
        assert(forall|p: int, q: int|
            0 <= p < q < entries.drop_first().len() ==> entries.drop_first()[p] == entries[p + 1]
                && entries.drop_first()[q] == entries[q + 1]);
        lemma_lookup_registered(entries.drop_first(), i - 1);
    }
}

/// The ordered demo table. Its invariant: segments are pairwise distinct,
/// so an exact match is unambiguous.
pub struct DemoRegistry {
    entries: Vec<DemoEntry>,
}

impl View for DemoRegistry {
    type V = Seq<DemoEntryModel>;

    closed spec fn view(&self) -> Seq<DemoEntryModel> {
        self.entries@.map_values(|e: DemoEntry| e@)
    }
}

impl DemoRegistry {
    /// The registry invariant: no segment is registered twice.
    pub open spec fn wf(self) -> bool {
        distinct_segments(self@)
    }

    /// An empty registry.
    pub fn new() -> (r: Self)
        ensures
            r@ == Seq::<DemoEntryModel>::empty(),
            r.wf(),
    {
        let r = DemoRegistry { entries: Vec::new() };
        proof {
            assert(r@ =~= Seq::<DemoEntryModel>::empty());
        }
        r
    }

    /// How many demos are registered.
    pub fn len(&self) -> (n: usize)
        ensures
            n == self@.len(),
    {
        self.entries.len()
    }

    /// The entry at position `i`, in registration order.
    pub fn entry(&self, i: usize) -> (e: &DemoEntry)
        requires
            i < self@.len(),
        ensures
            e@ == self@[i as int],
    {
        &self.entries[i]
    }

    /// Whether some demo is registered under `path_segment`.
    pub fn contains(&self, path_segment: &str) -> (r: bool)
        ensures
            r == has_segment(self@, path_segment@),
    {
        let wanted: String = path_segment.to_owned();
        let mut i: usize = 0;
        while i < self.entries.len()
            invariant
                i <= self@.len(),
                self@.len() == self.entries@.len(),
                wanted@ == path_segment@,
                forall|j: int| 0 <= j < i ==> self@[j].path_segment != path_segment@,
            decreases self@.len() - i,
        {
            if self.entries[i].path_segment == wanted {
                assert(self@[i as int].path_segment == path_segment@);
                return true;
            }
            i = i + 1;
        }
        false
    }

    /// Adds a demo under a fresh segment, at the end of the table.
    /// A duplicate segment is a configuration defect: the entry is
    /// refused, the registry is unchanged, and `false` comes back so a
    /// startup check can fail loudly.
    pub fn register(&mut self, path_segment: &str, display_label: &str, renderer: u64) -> (added:
        bool)
        requires
            old(self).wf(),
        ensures
            final(self).wf(),
            added == !has_segment(old(self)@, path_segment@),
            added ==> final(self)@ == old(self)@.push(
                DemoEntryModel {
                    path_segment: path_segment@,
                    display_label: display_label@,
                    renderer,
                },
            ),
            !added ==> final(self)@ == old(self)@,
    {
        if self.contains(path_segment) {
            return false;
        }
        let entry = DemoEntry {
            path_segment: path_segment.to_owned(),
            display_label: display_label.to_owned(),
            renderer,
        };
        self.entries.push(entry);
        proof {
            assert(self@ =~= old(self)@.push(
                DemoEntryModel {
                    path_segment: path_segment@,
                    display_label: display_label@,
                    renderer,
                },
            ));
        }
        true
    }

    /// Resolves a route segment: the renderer registered for an exact,
    /// case-sensitive match, or the fallback renderer when no entry
    /// matches. Total on every string; with distinct segments, a
    /// registered segment gets exactly the renderer of its own entry.
    pub fn resolve(&self, path_segment: &str) -> (r: Renderer)
        ensures
            r == renderer_for(self@, path_segment@),
            !has_segment(self@, path_segment@) ==> r == Renderer::Fallback,
            self.wf() ==> forall|i: int|
                0 <= i < self@.len() && self@[i].path_segment == path_segment@ ==> r
                    == Renderer::Demo(self@[i].renderer),
    {
        let ghost entries = self@;
        let wanted: String = path_segment.to_owned();
        proof {
            assert(entries.skip(0) =~= entries);
        }
        let mut i: usize = 0;
        while i < self.entries.len()
            invariant
                i <= entries.len(),
                entries == self@,
                entries.len() == self.entries@.len(),
                wanted@ == path_segment@,
                forall|j: int| 0 <= j < i ==> entries[j].path_segment != path_segment@,
                lookup(entries, path_segment@) == lookup(
                    entries.skip(i as int),
                    path_segment@,
                ),
            decreases entries.len() - i,
        {
            proof {
                assert(entries.skip(i as int)[0] == entries[i as int]);
            }
            if self.entries[i].path_segment == wanted {
                let handle = self.entries[i].renderer;
                proof {
                    assert(lookup(entries.skip(i as int), path_segment@) == Some(
                        entries[i as int].renderer,
                    ));
                    if self.wf() {
                        assert forall|k: int|
                            0 <= k < entries.len() && entries[k].path_segment
                                == path_segment@ implies Renderer::Demo(handle) == Renderer::Demo(
                            entries[k].renderer,
                        ) by {
                            if k != i {
                                assert(entries[i as int].path_segment != entries[k].path_segment);
                            }
                        }
                    }
                }
                return Renderer::Demo(handle);
            }
            proof {
                assert(entries.skip(i as int).drop_first() =~= entries.skip(i + 1));
            }
            i = i + 1;
        }
        proof {
            assert(entries.skip(entries.len() as int) =~= Seq::<DemoEntryModel>::empty());
            assert(lookup(entries, path_segment@) is None);
        }
        Renderer::Fallback
    }
}

} // verus!
