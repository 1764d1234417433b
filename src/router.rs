//! The routing table: outputs, known inputs, and the output-to-input mapping.
use vstd::prelude::*;

use crate::source::{
    has_match, has_url, lemma_with_source_distinct, source_matches,
    urls_distinct, with_source, with_sources, NdiSource, SourceView,
};

verus! {

/// An assignment of one input identity to one output.
#[derive(Debug, Clone, PartialEq)]
pub struct Route {
    pub input: String,
    pub output: String,
}

/// The mathematical value of a route.
pub struct RouteView {
    pub input: Seq<char>,
    pub output: Seq<char>,
}

impl View for Route {
    type V = RouteView;

    open spec fn view(&self) -> RouteView {
        RouteView { input: self.input@, output: self.output@ }
    }
}

impl Route {
    pub fn new(input: String, output: String) -> (r: Route)
        ensures
            r@ == (RouteView { input: input@, output: output@ }),
    {
        Route { input, output }
    }

    /// A copy of this route.
    pub fn duplicate(&self) -> (r: Route)
        ensures
            r@ == self@,
    {
        Route { input: self.input.clone(), output: self.output.clone() }
    }
}

/// The two kinds of entity a route names.
#[derive(Debug, Clone, Copy, PartialEq, Eq, Structural)]
pub enum EntityKind {
    Input,
    Output,
}

/// Why a route could not be made.
#[derive(Debug, Clone, PartialEq)]
pub enum RouteError {
    /// The named input or output is not known to the table.
    NotFound(EntityKind, String),
}

/// The mathematical value of a routing error.
pub enum RouteErrorView {
    NotFound(EntityKind, Seq<char>),
}

impl View for RouteError {
    type V = RouteErrorView;

    open spec fn view(&self) -> RouteErrorView {
        match self {
            RouteError::NotFound(k, id) => RouteErrorView::NotFound(*k, id@),
        }
    }
}

impl RouteError {
    /// The entity kind that was missing.
    pub fn kind(&self) -> (r: EntityKind)
        ensures
            r == match self@ {
                RouteErrorView::NotFound(k, _) => k,
            },
    {
        match self {
            RouteError::NotFound(k, _) => *k,
        }
    }

    /// The identity that was not found.
    pub fn identity(&self) -> (r: &String)
        ensures
            r@ == match self@ {
                RouteErrorView::NotFound(_, id) => id,
            },
    {
        match self {
            RouteError::NotFound(_, id) => id,
        }
    }

    /// A one-line description of the error.
    pub fn message(&self) -> (r: String)
        ensures
            r@ == match self@ {
                RouteErrorView::NotFound(EntityKind::Input, id) => seq!['I', 'n', 'p', 'u', 't', ' ', '\'']
                    + id + seq!['\'', ' ', 'n', 'o', 't', ' ', 'f', 'o', 'u', 'n', 'd'],
                RouteErrorView::NotFound(EntityKind::Output, id) => seq!['O', 'u', 't', 'p', 'u', 't', ' ', '\'']
                    + id + seq!['\'', ' ', 'n', 'o', 't', ' ', 'f', 'o', 'u', 'n', 'd'],
            },
    {
        let mut r = match self {
            RouteError::NotFound(EntityKind::Input, _) => String::from_str("Input '"),
            RouteError::NotFound(EntityKind::Output, _) => String::from_str("Output '"),
        };
        r.append(self.identity().as_str());
        r.append("' not found");
        proof {
            reveal_strlit("Input '");
            reveal_strlit("Output '");
            reveal_strlit("' not found");
        }
        r
    }
}

/// The outcome of an operation that can fail with a routing error, as a value.
pub open spec fn error_of(r: Result<(), RouteError>) -> Option<RouteErrorView> {
    match r {
        Ok(()) => None,
        Err(e) => Some(e@),
    }
}

/// The mapping held by a list of routes whose outputs are distinct.
pub open spec fn route_map(rs: Seq<RouteView>) -> Map<Seq<char>, Seq<char>> {
    Map::new(
        |o: Seq<char>| exists|k: int| 0 <= k < rs.len() && (#[trigger] rs[k]).output == o,
        |o: Seq<char>| rs[choose|k: int| 0 <= k < rs.len() && (#[trigger] rs[k]).output == o].input,
    )
}

/// No two routes in `rs` share an output.
pub open spec fn outputs_distinct(rs: Seq<RouteView>) -> bool {
    forall|j: int, k: int|
        0 <= j < rs.len() && 0 <= k < rs.len() && j != k ==> (#[trigger] rs[j]).output
            != (#[trigger] rs[k]).output
}

/// The route at index `k` is what the mapping holds for its output.
pub proof fn lemma_route_map_at(rs: Seq<RouteView>, k: int)
    requires
        outputs_distinct(rs),
        0 <= k < rs.len(),
    ensures
        route_map(rs).contains_key(rs[k].output),
        route_map(rs)[rs[k].output] == rs[k].input,
{
    let o = rs[k].output;
    assert(exists|i: int| 0 <= i < rs.len() && (#[trigger] rs[i]).output == o);
    let c = choose|i: int| 0 <= i < rs.len() && (#[trigger] rs[i]).output == o;
    assert(c == k);
}

/// Overwriting the route of an output that is already mapped.
pub proof fn lemma_route_map_update(rs: Seq<RouteView>, j: int, r: RouteView)
    requires
        outputs_distinct(rs),
        0 <= j < rs.len(),
        rs[j].output == r.output,
    ensures
        outputs_distinct(rs.update(j, r)),
        route_map(rs.update(j, r)) == route_map(rs).insert(r.output, r.input),
{
    let rs2 = rs.update(j, r);
    assert forall|i: int| 0 <= i < rs.len() implies (#[trigger] rs2[i]).output == rs[i].output by {}
    let m = route_map(rs).insert(r.output, r.input);
    assert forall|o: Seq<char>| #[trigger] route_map(rs2).contains_key(o) == m.contains_key(o) by {
        if route_map(rs2).contains_key(o) {
            let k = choose|i: int| 0 <= i < rs2.len() && (#[trigger] rs2[i]).output == o;
            lemma_route_map_at(rs, k);
        }
        if m.contains_key(o) && o != r.output {
            let k = choose|i: int| 0 <= i < rs.len() && (#[trigger] rs[i]).output == o;
            assert(rs2[k].output == o);
        }
        if o == r.output {
            assert(rs2[j].output == o);
        }
    }
    assert forall|o: Seq<char>| #[trigger] route_map(rs2).contains_key(o) implies route_map(rs2)[o]
        == m[o] by {
        let k = choose|i: int| 0 <= i < rs2.len() && (#[trigger] rs2[i]).output == o;
        lemma_route_map_at(rs2, k);
        lemma_route_map_at(rs, k);
    }
    assert(route_map(rs2) =~= m);
}

/// Appending the route of an output that is not mapped yet.
pub proof fn lemma_route_map_push(rs: Seq<RouteView>, r: RouteView)
    requires
        outputs_distinct(rs),
        !route_map(rs).contains_key(r.output),
    ensures
        outputs_distinct(rs.push(r)),
        route_map(rs.push(r)) == route_map(rs).insert(r.output, r.input),
{
    let rs2 = rs.push(r);
    assert forall|i: int| 0 <= i < rs.len() implies (#[trigger] rs2[i]) == rs[i] by {}
    assert forall|i: int| 0 <= i < rs.len() implies (#[trigger] rs[i]).output != r.output by {
        if rs[i].output == r.output {
            assert(route_map(rs).contains_key(r.output));
        }
    }
    let m = route_map(rs).insert(r.output, r.input);
    assert forall|o: Seq<char>| #[trigger] route_map(rs2).contains_key(o) == m.contains_key(o) by {
        if route_map(rs2).contains_key(o) && o != r.output {
            let k = choose|i: int| 0 <= i < rs2.len() && (#[trigger] rs2[i]).output == o;
            assert(rs[k].output == o);
        }
        if m.contains_key(o) && o != r.output {
            let k = choose|i: int| 0 <= i < rs.len() && (#[trigger] rs[i]).output == o;
            assert(rs2[k].output == o);
        }
        if o == r.output {
            assert(rs2[rs.len() as int].output == o);
        }
    }
    assert forall|o: Seq<char>| #[trigger] route_map(rs2).contains_key(o) implies route_map(rs2)[o]
        == m[o] by {
        let k = choose|i: int| 0 <= i < rs2.len() && (#[trigger] rs2[i]).output == o;
        lemma_route_map_at(rs2, k);
        if k < rs.len() {
            lemma_route_map_at(rs, k);
        }
    }
    assert(route_map(rs2) =~= m);
}

/// Removing the route at index `j`.
pub proof fn lemma_route_map_remove(rs: Seq<RouteView>, j: int)
    requires
        outputs_distinct(rs),
        0 <= j < rs.len(),
    ensures
        outputs_distinct(rs.remove(j)),
        route_map(rs.remove(j)) == route_map(rs).remove(rs[j].output),
{
    let rs2 = rs.remove(j);
    assert forall|i: int| 0 <= i < rs2.len() implies (#[trigger] rs2[i]) == if i < j {
        rs[i]
    } else {
        rs[i + 1]
    } by {}
    assert(outputs_distinct(rs2)) by {
        assert forall|a: int, b: int|
            0 <= a < rs2.len() && 0 <= b < rs2.len() && a != b implies (#[trigger] rs2[a]).output
                != (#[trigger] rs2[b]).output by {
            let a1 = if a < j { a } else { a + 1 };
            let b1 = if b < j { b } else { b + 1 };
            assert(rs2[a] == rs[a1] && rs2[b] == rs[b1]);
        }
    }
    let m = route_map(rs).remove(rs[j].output);
    assert forall|o: Seq<char>| #[trigger] route_map(rs2).contains_key(o) == m.contains_key(o) by {
        if route_map(rs2).contains_key(o) {
            let k = choose|i: int| 0 <= i < rs2.len() && (#[trigger] rs2[i]).output == o;
            let k1 = if k < j { k } else { k + 1 };
            assert(rs[k1].output == o);
            assert(k1 != j);
        }
        if m.contains_key(o) {
            let k = choose|i: int| 0 <= i < rs.len() && (#[trigger] rs[i]).output == o;
            assert(k != j);
            let k2 = if k < j { k } else { k - 1 };
            assert(rs2[k2].output == o);
        }
    }
    assert forall|o: Seq<char>| #[trigger] route_map(rs2).contains_key(o) implies route_map(rs2)[o]
        == m[o] by {
        let k = choose|i: int| 0 <= i < rs2.len() && (#[trigger] rs2[i]).output == o;
        let k1 = if k < j { k } else { k + 1 };
        lemma_route_map_at(rs2, k);
        lemma_route_map_at(rs, k1);
    }
    assert(route_map(rs2) =~= m);
}


/// The mathematical value of a routing table.
pub struct RouterView {
    /// The known inputs, in the order they were added.
    pub inputs: Seq<SourceView>,
    /// The outputs, in the order they were added.
    pub outputs: Seq<Seq<char>>,
    /// The mapping from output to input identity.
    pub routes: Map<Seq<char>, Seq<char>>,
}

impl RouterView {
    /// An empty table.
    pub open spec fn empty() -> RouterView {
        RouterView { inputs: Seq::empty(), outputs: Seq::empty(), routes: Map::empty() }
    }

    /// The table's invariant: unique input urls, unique outputs, and every
    /// mapped output is a known output.
    pub open spec fn valid(self) -> bool {
        &&& urls_distinct(self.inputs)
        &&& self.outputs.no_duplicates()
        &&& forall|o: Seq<char>| #[trigger] self.routes.contains_key(o) ==> self.outputs.contains(o)
    }

    /// Whether a known input matches `id` by url or by name.
    pub open spec fn has_input(self, id: Seq<char>) -> bool {
        has_match(self.inputs, id)
    }

    /// Whether `o` is a known output.
    pub open spec fn has_output(self, o: Seq<char>) -> bool {
        self.outputs.contains(o)
    }

    /// The table after adding the input `s`.
    pub open spec fn with_input(self, s: SourceView) -> RouterView {
        RouterView { inputs: with_source(self.inputs, s), ..self }
    }

    /// The table after adding the output `o`.
    pub open spec fn with_output(self, o: Seq<char>) -> RouterView {
        if self.outputs.contains(o) {
            self
        } else {
            RouterView { outputs: self.outputs.push(o), ..self }
        }
    }

    /// The table after adding each of the outputs `os` in order.
    pub open spec fn with_outputs(self, os: Seq<Seq<char>>) -> RouterView
        decreases os.len(),
    {
        if os.len() == 0 {
            self
        } else {
            self.with_outputs(os.drop_last()).with_output(os.last())
        }
    }

    /// The table with `o` mapped to `i`.
    pub open spec fn with_route(self, i: Seq<char>, o: Seq<char>) -> RouterView {
        RouterView { routes: self.routes.insert(o, i), ..self }
    }

    /// The table with no mapping for `o`.
    pub open spec fn without_route(self, o: Seq<char>) -> RouterView {
        RouterView { routes: self.routes.remove(o), ..self }
    }

    /// The error a strict route from `i` to `o` meets, if any: the input is
    /// checked first, then the output.
    pub open spec fn route_check(self, i: Seq<char>, o: Seq<char>) -> Option<RouteErrorView> {
        if !self.has_input(i) {
            Some(RouteErrorView::NotFound(EntityKind::Input, i))
        } else if !self.has_output(o) {
            Some(RouteErrorView::NotFound(EntityKind::Output, o))
        } else {
            None
        }
    }

    /// The error a placeholder route to `o` meets, if any.
    pub open spec fn placeholder_check(self, o: Seq<char>) -> Option<RouteErrorView> {
        if !self.has_output(o) {
            Some(RouteErrorView::NotFound(EntityKind::Output, o))
        } else {
            None
        }
    }

    /// The table after a strict route from `i` to `o`.
    pub open spec fn after_route(self, i: Seq<char>, o: Seq<char>) -> RouterView {
        if self.route_check(i, o) is None {
            self.with_route(i, o)
        } else {
            self
        }
    }

    /// The table and the error after applying `rs` in order with strict
    /// routes, stopping at the first failure and keeping what came before it.
    pub open spec fn after_load(self, rs: Seq<RouteView>) -> (RouterView, Option<RouteErrorView>)
        decreases rs.len(),
    {
        if rs.len() == 0 {
            (self, None)
        } else {
            match self.route_check(rs[0].input, rs[0].output) {
                Some(e) => (self, Some(e)),
                None => self.with_route(rs[0].input, rs[0].output).after_load(rs.drop_first()),
            }
        }
    }
}

/// The routing table.
///
/// Outputs are declared up front; inputs are learned as they are discovered.
/// A route maps an output to an input identity, which need not name a known
/// input: such a route is a placeholder, and becomes resolved once a matching
/// input is known. That classification is derived on every read through
/// `input_exists` and never stored.
pub struct MatrixRouter {
    routes: Vec<Route>,
    inputs: Vec<NdiSource>,
    outputs: Vec<String>,
}

impl View for MatrixRouter {
    type V = RouterView;

    closed spec fn view(&self) -> RouterView {
        RouterView {
            inputs: self.inputs@.map_values(|s: NdiSource| s@),
            outputs: self.outputs@.map_values(|o: String| o@),
            routes: route_map(self.route_list()),
        }
    }
}

impl Default for MatrixRouter {
    fn default() -> (r: MatrixRouter)
        ensures
            r.wf(),
            r@ == RouterView::empty(),
    {
        MatrixRouter::new()
    }
}

impl MatrixRouter {
    /// The stored routes, as values.
    closed spec fn route_list(&self) -> Seq<RouteView> {
        self.routes@.map_values(|r: Route| r@)
    }

    /// Well-formedness: the view is valid and no output has two routes.
    pub closed spec fn wf(&self) -> bool {
        &&& self@.valid()
        &&& outputs_distinct(self.route_list())
    }

    /// A well-formed table has a valid view.
    pub proof fn lemma_wf_valid(&self)
        requires
            self.wf(),
        ensures
            self@.valid(),
    {
    }

    pub fn new() -> (r: MatrixRouter)
        ensures
            r.wf(),
            r@ == RouterView::empty(),
    {
        let r = MatrixRouter { routes: Vec::new(), inputs: Vec::new(), outputs: Vec::new() };
        assert(r@.inputs =~= Seq::<SourceView>::empty());
        assert(r@.outputs =~= Seq::<Seq<char>>::empty());
        assert(r@.routes =~= Map::<Seq<char>, Seq<char>>::empty());
        r
    }

    /// Adds an input; a no-op when an input with the same url is known.
    pub fn add_input(&mut self, source: NdiSource)
        requires
            old(self).wf(),
        ensures
            final(self).wf(),
            final(self)@ == old(self)@.with_input(source@),
    {
        proof {
            lemma_with_source_distinct(self@.inputs, source@);
        }
        if !self.has_input_url(&source.url) {
            let ghost s = source@;
            self.inputs.push(source);
            assert(self@.inputs =~= old(self)@.inputs.push(s));
        }
        assert(self@.routes == old(self)@.routes);
        assert(self@.outputs == old(self)@.outputs);
    }

    /// Adds an output; a no-op when it is already known.
    pub fn add_output(&mut self, output: String)
        requires
            old(self).wf(),
        ensures
            final(self).wf(),
            final(self)@ == old(self)@.with_output(output@),
    {
        if !self.has_output(&output) {
            let ghost o = output@;
            self.outputs.push(output);
            assert(self@.outputs =~= old(self)@.outputs.push(o));
            assert(self@.routes == old(self)@.routes);
            assert forall|q: Seq<char>| #[trigger] self@.routes.contains_key(q) implies self@.outputs.contains(q) by {
                assert(old(self)@.outputs.contains(q));
                let k = choose|k: int| 0 <= k < old(self)@.outputs.len() && old(self)@.outputs[k] == q;
                assert(self@.outputs[k] == q);
            }
        }
    }

    /// Routes `input` to `output`.
    ///
    /// Fails with `NotFound(Input, input)` when no known input matches
    /// `input` by url or name, else with `NotFound(Output, output)` when the
    /// output is unknown. On success the output's mapping is set to `input`,
    /// replacing any earlier one; on failure the table is unchanged.
    pub fn route(&mut self, input: &str, output: &str) -> (r: Result<(), RouteError>)
        requires
            old(self).wf(),
        ensures
            final(self).wf(),
            error_of(r) == old(self)@.route_check(input@, output@),
            final(self)@ == old(self)@.after_route(input@, output@),
    {
        let input_s = input.to_owned();
        let output_s = output.to_owned();
        if !self.has_input_id(&input_s) {
            return Err(RouteError::NotFound(EntityKind::Input, input_s));
        }
        if !self.has_output(&output_s) {
            return Err(RouteError::NotFound(EntityKind::Output, output_s));
        }
        self.set_route(input_s, output_s);
        Ok(())
    }

    /// Routes `input` to `output` whether or not a matching input is known.
    ///
    /// Fails with `NotFound(Output, output)`, leaving the table unchanged,
    /// when the output is unknown.
    pub fn route_placeholder(&mut self, input: &str, output: &str) -> (r: Result<(), RouteError>)
        requires
            old(self).wf(),
        ensures
            final(self).wf(),
            error_of(r) == old(self)@.placeholder_check(output@),
            final(self)@ == if r is Ok {
                old(self)@.with_route(input@, output@)
            } else {
                old(self)@
            },
    {
        let input_s = input.to_owned();
        let output_s = output.to_owned();
        if !self.has_output(&output_s) {
            return Err(RouteError::NotFound(EntityKind::Output, output_s));
        }
        self.set_route(input_s, output_s);
        Ok(())
    }

    /// Whether a known input matches `input` by url or by name: a mapping to
    /// `input` is resolved when this holds and a placeholder when it does not.
    pub fn input_exists(&self, input: &str) -> (r: bool)
        ensures
            r == self@.has_input(input@),
    {
        let input_s = input.to_owned();
        self.has_input_id(&input_s)
    }

    /// Removes the mapping of `output`, returning the input it held; returns
    /// `None` and changes nothing when `output` has no mapping.
    pub fn unroute(&mut self, output: &str) -> (r: Option<String>)
        requires
            old(self).wf(),
        ensures
            final(self).wf(),
            final(self)@ == old(self)@.without_route(output@),
            match r {
                Some(i) => old(self)@.routes.contains_key(output@) && i@ == old(self)@.routes[output@],
                None => !old(self)@.routes.contains_key(output@),
            },
    {
        let output_s = output.to_owned();
        match self.route_index(&output_s) {
            Some(j) => {
                let ghost rs = self.route_list();
                proof {
                    lemma_route_map_remove(rs, j as int);
                    lemma_route_map_at(rs, j as int);
                }
                let removed = self.routes.remove(j);
                assert(self.route_list() =~= rs.remove(j as int));
                assert forall|q: Seq<char>| #[trigger] self@.routes.contains_key(q) implies self@.outputs.contains(q) by {
                    assert(old(self)@.routes.contains_key(q));
                }
                Some(removed.input)
            },
            None => {
                assert(old(self)@.routes.remove(output@) =~= old(self)@.routes);
                None
            },
        }
    }

    /// The input that `output` is mapped to, if any.
    pub fn get_route(&self, output: &str) -> (r: Option<&String>)
        requires
            self.wf(),
        ensures
            match r {
                Some(i) => self@.routes.contains_key(output@) && i@ == self@.routes[output@],
                None => !self@.routes.contains_key(output@),
            },
    {
        let output_s = output.to_owned();
        match self.route_index(&output_s) {
            Some(j) => {
                proof {
                    lemma_route_map_at(self.route_list(), j as int);
                }
                Some(&self.routes[j].input)
            },
            None => None,
        }
    }

    /// Every current mapping, once each, in no particular order.
    pub fn get_all_routes(&self) -> (r: Vec<Route>)
        requires
            self.wf(),
        ensures
            outputs_distinct(r@.map_values(|x: Route| x@)),
            route_map(r@.map_values(|x: Route| x@)) == self@.routes,
    {
        let mut r: Vec<Route> = Vec::new();
        let mut i: usize = 0;
        while i < self.routes.len()
            invariant
                i <= self.routes@.len(),
                r@.len() == i,
                forall|k: int| 0 <= k < i ==> (#[trigger] r@[k])@ == self.routes@[k]@,
            decreases self.routes@.len() - i,
        {
            r.push(self.routes[i].duplicate());
            i += 1;
        }
        assert(r@.map_values(|x: Route| x@) =~= self.route_list());
        r
    }

    /// The known inputs, in the order they were added.
    pub fn get_inputs(&self) -> (r: &[NdiSource])
        ensures
            r@.map_values(|s: NdiSource| s@) == self@.inputs,
    {
        self.inputs.as_slice()
    }

    /// The outputs, in the order they were added.
    pub fn get_outputs(&self) -> (r: &[String])
        ensures
            r@.map_values(|o: String| o@) == self@.outputs,
    {
        self.outputs.as_slice()
    }

    /// Removes every mapping.
    pub fn clear_routes(&mut self)
        requires
            old(self).wf(),
        ensures
            final(self).wf(),
            final(self)@ == (RouterView { routes: Map::empty(), ..old(self)@ }),
    {
        self.routes = Vec::new();
        assert(self.route_list() =~= Seq::<RouteView>::empty());
        assert(self@.routes =~= Map::<Seq<char>, Seq<char>>::empty());
    }

    /// Applies `routes` in order with strict routes.
    ///
    /// Stops at the first route that fails and returns its error; the routes
    /// applied before it stay in the table, and none after it is applied.
    pub fn load_routes(&mut self, routes: Vec<Route>) -> (r: Result<(), RouteError>)
        requires
            old(self).wf(),
        ensures
            final(self).wf(),
            final(self)@ == old(self)@.after_load(routes@.map_values(|x: Route| x@)).0,
            error_of(r) == old(self)@.after_load(routes@.map_values(|x: Route| x@)).1,
    {
        let ghost rs = routes@.map_values(|x: Route| x@);
        assert(rs.subrange(0, rs.len() as int) =~= rs);
        let mut i: usize = 0;
        while i < routes.len()
            invariant
                self.wf(),
                i <= routes@.len(),
                rs == routes@.map_values(|x: Route| x@),
                old(self)@.after_load(rs) == self@.after_load(rs.subrange(i as int, rs.len() as int)),
            decreases routes@.len() - i,
        {
            let ghost cur = self@;
            let ghost rest = rs.subrange(i as int, rs.len() as int);
            assert(rest[0] == routes@[i as int]@);
            assert(rest.drop_first() =~= rs.subrange(i + 1, rs.len() as int));
            let res = self.route(routes[i].input.as_str(), routes[i].output.as_str());
            if res.is_err() {
                return res;
            }
            i += 1;
        }
        assert(rs.subrange(i as int, rs.len() as int) =~= Seq::<RouteView>::empty());
        Ok(())
    }

    /// Makes the known inputs those of `sources`, added in order with
    /// duplicate urls dropped; the mapping is left as it is, so a mapping to
    /// an input that is no longer known becomes a placeholder.
    pub fn sync_inputs(&mut self, sources: &Vec<NdiSource>)
        requires
            old(self).wf(),
        ensures
            final(self).wf(),
            final(self)@ == (RouterView {
                inputs: with_sources(Seq::empty(), sources@.map_values(|s: NdiSource| s@)),
                ..old(self)@
            }),
    {
        let ghost ss = sources@.map_values(|s: NdiSource| s@);
        self.inputs = Vec::new();
        assert(self@.inputs =~= Seq::<SourceView>::empty());
        assert(ss.subrange(0, 0) =~= Seq::<SourceView>::empty());
        let mut i: usize = 0;
        while i < sources.len()
            invariant
                self.wf(),
                i <= sources@.len(),
                ss == sources@.map_values(|s: NdiSource| s@),
                self@ == (RouterView {
                    inputs: with_sources(Seq::empty(), ss.subrange(0, i as int)),
                    ..old(self)@
                }),
            decreases sources@.len() - i,
        {
            assert(ss.subrange(0, i + 1).drop_last() =~= ss.subrange(0, i as int));
            self.add_input(sources[i].duplicate());
            i += 1;
        }
        assert(ss.subrange(0, sources@.len() as int) =~= ss);
    }

    /// Whether a known input has the url `url`.
    fn has_input_url(&self, url: &String) -> (r: bool)
        ensures
            r == has_url(self@.inputs, url@),
    {
        let mut i: usize = 0;
        while i < self.inputs.len()
            invariant
                i <= self.inputs@.len(),
                forall|k: int| 0 <= k < i ==> (#[trigger] self.inputs@[k])@.url != url@,
            decreases self.inputs@.len() - i,
        {
            if self.inputs[i].url == *url {
                assert(self@.inputs[i as int].url == url@);
                return true;
            }
            i += 1;
        }
        assert forall|k: int| 0 <= k < self@.inputs.len() implies (#[trigger] self@.inputs[k]).url
            != url@ by {
            assert(self@.inputs[k] == self.inputs@[k]@);
        }
        false
    }

    /// Whether a known input matches `id` by url or by name.
    fn has_input_id(&self, id: &String) -> (r: bool)
        ensures
            r == self@.has_input(id@),
    {
        let mut i: usize = 0;
        while i < self.inputs.len()
            invariant
                i <= self.inputs@.len(),
                forall|k: int| 0 <= k < i ==> !source_matches((#[trigger] self.inputs@[k])@, id@),
            decreases self.inputs@.len() - i,
        {
            if self.inputs[i].matches(id) {
                assert(self@.inputs[i as int] == self.inputs@[i as int]@);
                return true;
            }
            i += 1;
        }
        assert forall|k: int| 0 <= k < self@.inputs.len() implies !source_matches(
            #[trigger] self@.inputs[k],
            id@,
        ) by {
            assert(self@.inputs[k] == self.inputs@[k]@);
        }
        false
    }

    /// Whether `output` is a known output.
    fn has_output(&self, output: &String) -> (r: bool)
        ensures
            r == self@.has_output(output@),
    {
        let mut i: usize = 0;
        while i < self.outputs.len()
            invariant
                i <= self.outputs@.len(),
                forall|k: int| 0 <= k < i ==> (#[trigger] self.outputs@[k])@ != output@,
            decreases self.outputs@.len() - i,
        {
            if self.outputs[i] == *output {
                assert(self@.outputs[i as int] == output@);
                return true;
            }
            i += 1;
        }
        assert(!self@.outputs.contains(output@)) by {
            if self@.outputs.contains(output@) {
                let k = choose|k: int| 0 <= k < self@.outputs.len() && self@.outputs[k] == output@;
                assert(self@.outputs[k] == self.outputs@[k]@);
            }
        }
        false
    }

    /// The index of the route for `output`, if there is one.
    fn route_index(&self, output: &String) -> (r: Option<usize>)
        requires
            self.wf(),
        ensures
            match r {
                Some(j) => j < self.routes@.len() && self.routes@[j as int].output@ == output@,
                None => !self@.routes.contains_key(output@),
            },
    {
        let mut i: usize = 0;
        while i < self.routes.len()
            invariant
                i <= self.routes@.len(),
                forall|k: int| 0 <= k < i ==> (#[trigger] self.routes@[k]).output@ != output@,
            decreases self.routes@.len() - i,
        {
            if self.routes[i].output == *output {
                return Some(i);
            }
            i += 1;
        }
        assert(!self@.routes.contains_key(output@)) by {
            if self@.routes.contains_key(output@) {
                let k = choose|k: int|
                    0 <= k < self.route_list().len() && (#[trigger] self.route_list()[k]).output
                        == output@;
                assert(self.route_list()[k] == self.routes@[k]@);
            }
        }
        None
    }

    /// Maps `output` to `input`, replacing any earlier mapping of `output`.
    fn set_route(&mut self, input: String, output: String)
        requires
            old(self).wf(),
            old(self)@.has_output(output@),
        ensures
            final(self).wf(),
            final(self)@ == old(self)@.with_route(input@, output@),
    {
        let ghost rs = self.route_list();
        let ghost m = old(self)@.routes.insert(output@, input@);
        let r = Route { input, output };
        match self.route_index(&r.output) {
            Some(j) => {
                proof {
                    lemma_route_map_update(rs, j as int, r@);
                }
                self.routes[j] = r;
                assert(self.route_list() =~= rs.update(j as int, r@));
            },
            None => {
                proof {
                    lemma_route_map_push(rs, r@);
                }
                self.routes.push(r);
                assert(self.route_list() =~= rs.push(r@));
            },
        }
        assert(self@.routes == m);
        assert(self@.inputs == old(self)@.inputs);
        assert(self@.outputs == old(self)@.outputs);
        assert forall|o: Seq<char>| #[trigger] self@.routes.contains_key(o) implies self@.outputs.contains(o) by {
            if o != r@.output {
                assert(old(self)@.routes.contains_key(o));
            }
        }
    }
}


/// Once an output and an input have been added, a strict route from the
/// input's url to the output succeeds, and the routes listed afterwards hold
/// exactly one pair of that input and that output.
pub proof fn lemma_route_added_pair(v: RouterView, s: SourceView, o: Seq<char>, listed: Seq<RouteView>)
    requires
        v.valid(),
        outputs_distinct(listed),
        route_map(listed) == v.with_output(o).with_input(s).after_route(s.url, o).routes,
    ensures
        v.with_output(o).with_input(s).route_check(s.url, o) is None,
        exists|k: int|
            0 <= k < listed.len() && #[trigger] listed[k] == (RouteView { input: s.url, output: o }),
        forall|j: int, k: int|
            0 <= j < listed.len() && 0 <= k < listed.len() && #[trigger] listed[j] == (RouteView {
                input: s.url,
                output: o,
            }) && #[trigger] listed[k] == (RouteView { input: s.url, output: o }) ==> j == k,
{
    let v1 = v.with_output(o).with_input(s);
    assert(v1.has_output(o)) by {
        if !v.outputs.contains(o) {
            assert(v.outputs.push(o)[v.outputs.len() as int] == o);
        }
    }
    assert(v1.has_input(s.url)) by {
        if has_url(v.with_output(o).inputs, s.url) {
            let k = choose|k: int|
                0 <= k < v.inputs.len() && (#[trigger] v.inputs[k]).url == s.url;
            assert(source_matches(v1.inputs[k], s.url));
        } else {
            assert(source_matches(v1.inputs[v.inputs.len() as int], s.url));
        }
    }
    let m = route_map(listed);
    assert(m.contains_key(o) && m[o] == s.url);
    let k = choose|k: int| 0 <= k < listed.len() && (#[trigger] listed[k]).output == o;
    lemma_route_map_at(listed, k);
    assert(listed[k] == (RouteView { input: s.url, output: o }));
}

/// Unrouting an output that has no mapping leaves the routes as they were
/// (and `unroute` then returns nothing).
pub proof fn lemma_unroute_unmapped(v: RouterView, o: Seq<char>)
    requires
        !v.routes.contains_key(o),
    ensures
        v.without_route(o) == v,
{
    assert(v.routes.remove(o) =~= v.routes);
}

/// A placeholder route to a known output succeeds though no input matches;
/// the input stays unresolved until a matching input is added, which
/// resolves it while the routes stay as they were.
pub proof fn lemma_placeholder_resolves(v: RouterView, i: Seq<char>, o: Seq<char>, s: SourceView)
    requires
        v.valid(),
        v.has_output(o),
        !v.has_input(i),
        source_matches(s, i),
        !has_url(v.inputs, s.url),
    ensures
        v.placeholder_check(o) is None,
        !v.with_route(i, o).has_input(i),
        v.with_route(i, o).with_input(s).has_input(i),
        v.with_route(i, o).with_input(s).routes == v.with_route(i, o).routes,
        v.with_route(i, o).with_input(s).routes[o] == i,
{
    let w = v.with_route(i, o).with_input(s);
    assert(w.inputs == v.inputs.push(s));
    assert(source_matches(w.inputs[v.inputs.len() as int], i));
}

/// Adding two sources with the same url, whatever their names, leaves
/// exactly one input with that url: the first of the two, or the one known
/// before.
pub proof fn lemma_same_url_once(v: RouterView, s1: SourceView, s2: SourceView)
    requires
        v.valid(),
        s1.url == s2.url,
    ensures
        v.with_input(s1).with_input(s2) == v.with_input(s1),
        exists|k: int|
            0 <= k < v.with_input(s1).inputs.len() && (#[trigger] v.with_input(s1).inputs[k]).url
                == s1.url,
        forall|j: int, k: int|
            0 <= j < v.with_input(s1).inputs.len() && 0 <= k < v.with_input(s1).inputs.len()
                && (#[trigger] v.with_input(s1).inputs[j]).url == s1.url
                && (#[trigger] v.with_input(s1).inputs[k]).url == s1.url ==> j == k,
{
    let w = v.with_input(s1);
    lemma_with_source_distinct(v.inputs, s1);
    if !has_url(v.inputs, s1.url) {
        assert(w.inputs[v.inputs.len() as int].url == s1.url);
    }
    assert(has_url(w.inputs, s2.url));
}

/// Loading three routes of which the second names an unknown output applies
/// the first, reports the second's error, and does not apply the third.
pub proof fn lemma_load_stops_at_failure(v: RouterView, r1: RouteView, r2: RouteView, r3: RouteView)
    requires
        v.valid(),
        v.route_check(r1.input, r1.output) is None,
        !v.has_output(r2.output),
    ensures
        v.after_load(seq![r1, r2, r3]).0 == v.with_route(r1.input, r1.output),
        v.after_load(seq![r1, r2, r3]).1 == v.with_route(r1.input, r1.output).route_check(
            r2.input,
            r2.output,
        ),
        v.after_load(seq![r1, r2, r3]).1 is Some,
        v.has_input(r2.input) ==> v.after_load(seq![r1, r2, r3]).1 == Some(
            RouteErrorView::NotFound(EntityKind::Output, r2.output),
        ),
        v.after_load(seq![r1, r2, r3]).0.routes.contains_key(r1.output),
        v.after_load(seq![r1, r2, r3]).0.routes[r1.output] == r1.input,
        !v.routes.contains_key(r3.output) && r3.output != r1.output ==> !v.after_load(
            seq![r1, r2, r3],
        ).0.routes.contains_key(r3.output),
{
    let rs = seq![r1, r2, r3];
    let v1 = v.with_route(r1.input, r1.output);
    assert(rs[0] == r1);
    assert(rs.drop_first() =~= seq![r2, r3]);
    assert(seq![r2, r3][0] == r2);
    assert(v1.route_check(r2.input, r2.output) is Some);
    assert(v.after_load(rs) == v1.after_load(seq![r2, r3]));
}

} // verus!
