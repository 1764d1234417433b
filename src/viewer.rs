//! The matrix viewer's state: the routing table beside the latest snapshot
//! of the source registry, and one view slot per output.
use vstd::prelude::*;

use crate::layout::Layout;
use crate::router::{error_of, MatrixRouter, RouteError, RouterView};
use crate::discovery::{lemma_without_url_members, without_url};
use crate::source::{
    has_match, lemma_with_sources_members, source_matches, with_sources, NdiSource, SourceView,
};

verus! {

/// One view on screen, showing an output.
pub struct ViewSlot {
    /// The output this slot shows.
    pub output_name: String,
    /// The input last routed to the output from this viewer, if any.
    pub assigned_input: Option<String>,
}

/// The mathematical value of a view slot.
pub struct SlotView {
    pub output: Seq<char>,
    pub input: Option<Seq<char>>,
}

impl View for ViewSlot {
    type V = SlotView;

    open spec fn view(&self) -> SlotView {
        SlotView {
            output: self.output_name@,
            input: match self.assigned_input {
                Some(i) => Some(i@),
                None => None,
            },
        }
    }
}

/// The values of a list of slots.
pub open spec fn slot_values(v: Seq<ViewSlot>) -> Seq<SlotView> {
    v.map_values(|s: ViewSlot| s@)
}

/// `j` is the first slot that shows `o`.
pub open spec fn is_first_slot(slots: Seq<SlotView>, o: Seq<char>, j: int) -> bool {
    &&& 0 <= j < slots.len()
    &&& slots[j].output == o
    &&& forall|k: int| 0 <= k < j ==> (#[trigger] slots[k]).output != o
}

/// `slots` with the first slot that shows `o` set to show the input `v`.
pub open spec fn assign_slot(slots: Seq<SlotView>, o: Seq<char>, v: Option<Seq<char>>) -> Seq<SlotView> {
    if exists|j: int| #[trigger] is_first_slot(slots, o, j) {
        let j = choose|j: int| is_first_slot(slots, o, j);
        slots.update(j, SlotView { input: v, ..slots[j] })
    } else {
        slots
    }
}

/// `j` is the first source in `srcs` that `id` names.
pub open spec fn is_first_match(srcs: Seq<SourceView>, id: Seq<char>, j: int) -> bool {
    &&& 0 <= j < srcs.len()
    &&& source_matches(srcs[j], id)
    &&& forall|k: int| 0 <= k < j ==> !source_matches(#[trigger] srcs[k], id)
}

/// The mathematical value of the viewer state.
pub struct ViewerView {
    pub layout: Layout,
    pub router: RouterView,
    pub available: Seq<SourceView>,
    pub slots: Seq<SlotView>,
}

/// The viewer state.
pub struct MatrixViewerApp {
    layout: Layout,
    router: MatrixRouter,
    available_sources: Vec<NdiSource>,
    view_slots: Vec<ViewSlot>,
}

impl View for MatrixViewerApp {
    type V = ViewerView;

    closed spec fn view(&self) -> ViewerView {
        ViewerView {
            layout: self.layout,
            router: self.router@,
            available: self.available_sources@.map_values(|s: NdiSource| s@),
            slots: slot_values(self.view_slots@),
        }
    }
}

/// The slot with index `j` is the first that shows `o`, if there is one.
fn first_slot(slots: &Vec<ViewSlot>, o: &String) -> (r: Option<usize>)
    ensures
        match r {
            Some(j) => is_first_slot(slot_values(slots@), o@, j as int),
            None => !exists|j: int| #[trigger] is_first_slot(slot_values(slots@), o@, j),
        },
{
    let ghost sv = slot_values(slots@);
    let mut i: usize = 0;
    while i < slots.len()
        invariant
            i <= slots@.len(),
            sv == slot_values(slots@),
            forall|k: int| 0 <= k < i ==> (#[trigger] sv[k]).output != o@,
        decreases slots@.len() - i,
    {
        if slots[i].output_name == *o {
            return Some(i);
        }
        i += 1;
    }
    None
}

/// Sets the first slot that shows `o` to show `v`.
fn assign_first_slot(slots: &mut Vec<ViewSlot>, o: &String, v: Option<String>)
    ensures
        slot_values(final(slots)@) == assign_slot(
            slot_values(old(slots)@),
            o@,
            match v {
                Some(i) => Some(i@),
                None => None,
            },
        ),
{
    let ghost sv = slot_values(slots@);
    match first_slot(slots, o) {
        Some(j) => {
            let ghost c = choose|c: int| is_first_slot(sv, o@, c);
            assert(c == j as int) by {
                if c < j {
                    assert(sv[c].output != o@);
                } else if j < c {
                    assert(sv[j as int].output != o@);
                }
            }
            slots[j].assigned_input = v;
            assert(slot_values(slots@) =~= assign_slot(
                sv,
                o@,
                match v {
                    Some(i) => Some(i@),
                    None => None,
                },
            ));
        },
        None => {},
    }
}

impl MatrixViewerApp {
    /// Well-formedness: the routing table is well-formed.
    pub closed spec fn wf(&self) -> bool {
        self.router.wf()
    }

    /// A viewer showing `outputs`, one slot each, with nothing routed.
    pub fn new(outputs: &Vec<String>, layout: Layout) -> (r: MatrixViewerApp)
        ensures
            r.wf(),
            r@.layout == layout,
            r@.router == RouterView::empty().with_outputs(outputs@.map_values(|o: String| o@)),
            r@.available == Seq::<SourceView>::empty(),
            r@.slots == outputs@.map_values(|o: String| SlotView { output: o@, input: None }),
    {
        let ghost os = outputs@.map_values(|o: String| o@);
        let mut router = MatrixRouter::new();
        let mut slots: Vec<ViewSlot> = Vec::new();
        let mut i: usize = 0;
        assert(os.subrange(0, 0) =~= Seq::<Seq<char>>::empty());
        while i < outputs.len()
            invariant
                i <= outputs@.len(),
                os == outputs@.map_values(|o: String| o@),
                router.wf(),
                router@ == RouterView::empty().with_outputs(os.subrange(0, i as int)),
                slots@.len() == i,
                forall|k: int|
                    0 <= k < i ==> (#[trigger] slots@[k])@ == (SlotView {
                        output: outputs@[k]@,
                        input: None,
                    }),
            decreases outputs@.len() - i,
        {
            assert(os.subrange(0, i + 1).drop_last() =~= os.subrange(0, i as int));
            router.add_output(outputs[i].clone());
            slots.push(ViewSlot { output_name: outputs[i].clone(), assigned_input: None });
            i += 1;
        }
        assert(os.subrange(0, os.len() as int) =~= os);
        assert(slot_values(slots@) =~= outputs@.map_values(
            |o: String| SlotView { output: o@, input: None },
        ));
        let r = MatrixViewerApp { layout, router, available_sources: Vec::new(), view_slots: slots };
        assert(r@.available =~= Seq::<SourceView>::empty());
        r
    }

    /// Takes a fresh snapshot of the registry: it becomes the available
    /// sources, and the routing table's known inputs follow it. Mappings are
    /// kept, so one whose input left the snapshot becomes a placeholder.
    pub fn update_sources(&mut self, snapshot: Vec<NdiSource>)
        requires
            old(self).wf(),
        ensures
            final(self).wf(),
            final(self)@ == (ViewerView {
                available: snapshot@.map_values(|s: NdiSource| s@),
                router: RouterView {
                    inputs: with_sources(Seq::empty(), snapshot@.map_values(|s: NdiSource| s@)),
                    ..old(self)@.router
                },
                ..old(self)@
            }),
    {
        self.available_sources = snapshot;
        self.router.sync_inputs(&self.available_sources);
    }

    /// The index of the first available source that `id` names.
    fn find_available(&self, id: &String) -> (r: Option<usize>)
        ensures
            match r {
                Some(j) => is_first_match(self@.available, id@, j as int),
                None => forall|k: int|
                    0 <= k < self@.available.len() ==> !source_matches(
                        #[trigger] self@.available[k],
                        id@,
                    ),
            },
    {
        let mut i: usize = 0;
        while i < self.available_sources.len()
            invariant
                i <= self.available_sources@.len(),
                forall|k: int| 0 <= k < i ==> !source_matches(#[trigger] self@.available[k], id@),
            decreases self.available_sources@.len() - i,
        {
            if self.available_sources[i].matches(id) {
                return Some(i);
            }
            i += 1;
        }
        None
    }

    /// Routes `input` to `output`: strictly when a known input matches, as a
    /// placeholder otherwise.
    ///
    /// The first available source that `input` names is first added to the
    /// known inputs. Fails, changing no mapping and no slot, only when the
    /// output is unknown; on success the first slot showing `output` shows
    /// `input`.
    pub fn create_route(&mut self, input: String, output: String) -> (r: Result<(), RouteError>)
        requires
            old(self).wf(),
        ensures
            final(self).wf(),
            error_of(r) == old(self)@.router.placeholder_check(output@),
            final(self)@.layout == old(self)@.layout,
            final(self)@.available == old(self)@.available,
            ({
                let known = if exists|j: int| #[trigger] is_first_match(old(self)@.available, input@, j) {
                    old(self)@.router.with_input(
                        old(self)@.available[choose|j: int|
                            is_first_match(old(self)@.available, input@, j)],
                    )
                } else {
                    old(self)@.router
                };
                if r is Ok {
                    &&& final(self)@.router == known.with_route(input@, output@)
                    &&& final(self)@.slots == assign_slot(old(self)@.slots, output@, Some(input@))
                } else {
                    &&& final(self)@.router == known
                    &&& final(self)@.slots == old(self)@.slots
                }
            }),
    {
        match self.find_available(&input) {
            Some(j) => {
                let ghost c = choose|c: int| is_first_match(self@.available, input@, c);
                assert(c == j as int) by {
                    if c < j {
                        assert(!source_matches(self@.available[c], input@));
                    } else if j < c {
                        assert(!source_matches(self@.available[j as int], input@));
                    }
                }
                let s = self.available_sources[j].duplicate();
                assert(s@ == self@.available[j as int]);
                self.router.add_input(s);
            },
            None => {
                assert(!exists|j: int| #[trigger] is_first_match(self@.available, input@, j));
            },
        }
        let result = if self.router.input_exists(input.as_str()) {
            self.router.route(input.as_str(), output.as_str())
        } else {
            self.router.route_placeholder(input.as_str(), output.as_str())
        };
        if result.is_ok() {
            assign_first_slot(&mut self.view_slots, &output, Some(input));
        }
        result
    }

    /// Removes the mapping of `output` and clears the first slot showing it;
    /// returns the input that was mapped, if any.
    pub fn remove_route(&mut self, output: &str) -> (r: Option<String>)
        requires
            old(self).wf(),
        ensures
            final(self).wf(),
            final(self)@ == (ViewerView {
                router: old(self)@.router.without_route(output@),
                slots: assign_slot(old(self)@.slots, output@, None),
                ..old(self)@
            }),
            match r {
                Some(i) => old(self)@.router.routes.contains_key(output@) && i@
                    == old(self)@.router.routes[output@],
                None => !old(self)@.router.routes.contains_key(output@),
            },
    {
        let removed = self.router.unroute(output);
        let output_s = output.to_owned();
        assign_first_slot(&mut self.view_slots, &output_s, None);
        removed
    }

    /// The current layout.
    pub fn layout(&self) -> (r: Layout)
        ensures
            r == self@.layout,
    {
        self.layout
    }

    /// Switches to another layout.
    pub fn set_layout(&mut self, layout: Layout)
        requires
            old(self).wf(),
        ensures
            final(self).wf(),
            final(self)@ == (ViewerView { layout, ..old(self)@ }),
    {
        self.layout = layout;
    }

    /// The routing table.
    pub fn router(&self) -> (r: &MatrixRouter)
        requires
            self.wf(),
        ensures
            r.wf(),
            r@ == self@.router,
    {
        &self.router
    }

    /// The sources of the latest snapshot.
    pub fn available_sources(&self) -> (r: &[NdiSource])
        ensures
            r@.map_values(|s: NdiSource| s@) == self@.available,
    {
        self.available_sources.as_slice()
    }

    /// The view slots, one per output.
    pub fn view_slots(&self) -> (r: &[ViewSlot])
        ensures
            r@.map_values(|v: ViewSlot| v@) == self@.slots,
    {
        self.view_slots.as_slice()
    }
}


/// A resolved route whose backing source is removed from the registry keeps
/// its input once the table takes the registry's next snapshot; only the
/// derived classification changes, to unresolved.
///
/// `url` is the url removed from the registry, and no other source in it is
/// named by the route's input.
pub proof fn lemma_removed_source_leaves_stale_route(
    v: RouterView,
    registry: Seq<SourceView>,
    o: Seq<char>,
    url: Seq<char>,
)
    requires
        v.valid(),
        v.routes.contains_key(o),
        v.has_input(v.routes[o]),
        forall|k: int|
            0 <= k < registry.len() && (#[trigger] registry[k]).url != url ==> !source_matches(
                registry[k],
                v.routes[o],
            ),
    ensures
        (RouterView {
            inputs: with_sources(Seq::empty(), without_url(registry, url)),
            ..v
        }).routes == v.routes,
        !(RouterView {
            inputs: with_sources(Seq::empty(), without_url(registry, url)),
            ..v
        }).has_input(v.routes[o]),
{
    let i = v.routes[o];
    let left = without_url(registry, url);
    let w = with_sources(Seq::empty(), left);
    lemma_without_url_members(registry, url);
    lemma_with_sources_members(Seq::empty(), left);
    assert forall|k: int| 0 <= k < w.len() implies !source_matches(#[trigger] w[k], i) by {
        assert(!Seq::<SourceView>::empty().contains(w[k]));
        assert(left.contains(w[k]));
        let j = choose|j: int| 0 <= j < left.len() && left[j] == w[k];
        assert(left[j].url != url && registry.contains(left[j]));
        let r = choose|r: int| 0 <= r < registry.len() && registry[r] == left[j];
        assert(registry[r].url != url);
    }
    assert(!has_match(w, i));
}

} // verus!
