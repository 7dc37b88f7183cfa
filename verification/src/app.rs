//! The application: its update layers, each run at its own rate, and the
//! settings systems use to request changes.
//!
//! The systems of each layer are scheduled by the caller; a layer refers to
//! its schedule by the position the layer was declared at.
use vstd::prelude::*;

pub mod misc;

pub use misc::{AppCommand, AppSettings, RenderFramerate, Timer};

use misc::SettingsModel;

use crate::clock::{elapsed, max_nanos, Instant};
use crate::misc::time::{readings_from, target_delta_nanos};
use misc::command_kind;

verus! {

/// The most update layers an application can declare.
pub const MAX_UPDATE_LAYERS: usize = 8;

/// A declared update layer: its name, its frequency and how many systems
/// were added to it.
pub type LayerDecl = (String, u32, u32);

/// The layer named `name` is first declared at position `i`.
pub open spec fn first_decl_named(decls: Seq<LayerDecl>, name: Seq<char>, i: int) -> bool {
    &&& 0 <= i < decls.len()
    &&& decls[i].0@ == name
    &&& forall|j: int| 0 <= j < i ==> decls[j].0@ != name
}

/// Whether a layer named `name` is declared.
pub open spec fn has_decl_named(decls: Seq<LayerDecl>, name: Seq<char>) -> bool {
    exists|i: int| 0 <= i < decls.len() && decls[i].0@ == name
}

/// The positions of the declared layers that received at least one system,
/// in order.
pub open spec fn kept_positions(decls: Seq<LayerDecl>) -> Seq<usize>
    decreases decls.len(),
{
    if decls.len() == 0 {
        Seq::empty()
    } else {
        let rest = kept_positions(decls.drop_last());
        if decls.last().2 != 0 {
            rest.push((decls.len() - 1) as usize)
        } else {
            rest
        }
    }
}

/// Collects the update layers of an application before it runs.
#[derive(Debug)]
pub struct AppBuilder {
    update_layer_builders: Vec<LayerDecl>,
}

impl View for AppBuilder {
    type V = Seq<LayerDecl>;

    closed spec fn view(&self) -> Seq<LayerDecl> {
        self.update_layer_builders@
    }
}

/// No two of the declared layers `decls` share a name.
pub open spec fn distinct_layer_names(decls: Seq<LayerDecl>) -> bool {
    forall|i: int, j: int| 0 <= i < j < decls.len() ==> #[trigger] decls[i].0@ != #[trigger] decls[j].0@
}

impl AppBuilder {
    #[verifier::type_invariant]
    spec fn names_unique(self) -> bool {
        distinct_layer_names(self@)
    }

    /// No layer declared.
    pub fn new() -> (b: AppBuilder)
        ensures
            b@ == Seq::<LayerDecl>::empty(),
    {
        AppBuilder { update_layer_builders: Vec::new() }
    }

    /// The declared layers: name, frequency and number of systems; no two
    /// share a name.
    pub fn update_layer_builders(&self) -> (d: &Vec<LayerDecl>)
        ensures
            d@ == self@,
            distinct_layer_names(self@),
    {
        proof {
            use_type_invariant(self);
        }
        &self.update_layer_builders
    }

    /// The position of the layer named `layer_name`, if one is declared.
    pub fn get_update_builder(&self, layer_name: &str) -> (r: Option<usize>)
        ensures
            r matches Some(i) ==> first_decl_named(self@, layer_name@, i as int),
            r is None <==> !has_decl_named(self@, layer_name@),
    {
        let key = layer_name.to_owned();
        let mut i: usize = 0;
        while i < self.update_layer_builders.len()
            invariant
                key@ == layer_name@,
                i <= self@.len(),
                forall|j: int| 0 <= j < i ==> self@[j].0@ != layer_name@,
            decreases self@.len() - i,
        {
            if self.update_layer_builders[i].0 == key {
                return Some(i);
            }
            i = i + 1;
        }
        None
    }

    /// Declares a layer named `layer_name` running at `frequency`; there must
    /// be room for it and no layer of that name yet.
    pub fn add_layer_to_update(&mut self, layer_name: String, frequency: u32)
        requires
            old(self)@.len() < MAX_UPDATE_LAYERS,
            !has_decl_named(old(self)@, layer_name@),
        ensures
            final(self)@ == old(self)@.push((layer_name, frequency, 0u32)),
    {
        proof {
            use_type_invariant(&*self);
        }
        let ghost before = self@;
        let mut decls: Vec<LayerDecl> = Vec::new();
        std::mem::swap(&mut decls, &mut self.update_layer_builders);
        let ghost name = layer_name@;
        decls.push((layer_name, frequency, 0));
        proof {
            assert forall|i: int, j: int| 0 <= i < j < decls@.len() implies #[trigger] decls@[i].0@
                != #[trigger] decls@[j].0@ by {
                if j == before.len() {
                    assert(decls@[i] == before[i]);
                    assert(decls@[j].0@ == name);
                } else {
                    assert(decls@[i] == before[i] && decls@[j] == before[j]);
                }
            }
        }
        self.update_layer_builders = decls;
    }

    /// Counts one more system for the layer named `layer_name`, which must
    /// be declared; returns the layer's position.
    pub fn add_update_system(&mut self, layer_name: &str) -> (i: usize)
        requires
            has_decl_named(old(self)@, layer_name@),
            forall|j: int| 0 <= j < old(self)@.len() ==> old(self)@[j].2 < u32::MAX,
        ensures
            first_decl_named(old(self)@, layer_name@, i as int),
            final(self)@ == old(self)@.update(
                i as int,
                (old(self)@[i as int].0, old(self)@[i as int].1, (old(self)@[i as int].2 + 1) as u32),
            ),
    {
        proof {
            use_type_invariant(&*self);
        }
        let found = self.get_update_builder(layer_name);
        let i = match found {
            Some(i) => i,
            None => 0,
        };
        let mut decls: Vec<LayerDecl> = Vec::new();
        std::mem::swap(&mut decls, &mut self.update_layer_builders);
        let (name, frequency, count) = decls.remove(i);
        decls.insert(i, (name, frequency, count + 1));
        proof {
            assert(decls@ =~= old(self)@.update(
                i as int,
                (old(self)@[i as int].0, old(self)@[i as int].1, (old(self)@[i as int].2 + 1) as u32),
            ));
            assert forall|a: int, b: int| 0 <= a < b < decls@.len() implies #[trigger] decls@[a].0@
                != #[trigger] decls@[b].0@ by {
                assert(decls@[a].0 == old(self)@[a].0);
                assert(decls@[b].0 == old(self)@[b].0);
            }
        }
        self.update_layer_builders = decls;
        i
    }

    /// The application: the layers that received at least one system, in
    /// declaration order, their clocks started at `now`. Each layer keeps
    /// its declaration position as its schedule.
    pub fn finish(self, now: Instant) -> (app: App)
        ensures
            app.update_layers@.len() == kept_positions(self@).len(),
            forall|k: int|
                0 <= k < app.update_layers@.len() ==> {
                    let p = kept_positions(self@)[k] as int;
                    let l = #[trigger] app.update_layers@[k];
                    &&& l.schedule == p
                    &&& l.name == self@[p].0
                    &&& l.timer.target_ticks == self@[p].1
                    &&& l.timer.target_delta@ == target_delta_nanos(self@[p].1)
                    &&& l.timer.last_tick == now
                    &&& l.timer.accumulated_delta@ == 0
                    &&& !l.timer.has_ticked
                },
            forall|a: int, b: int|
                0 <= a < b < app.update_layers@.len() ==> #[trigger] app.update_layers@[a].name@
                    != #[trigger] app.update_layers@[b].name@,
    {
        proof {
            use_type_invariant(&self);
        }
        let ghost decls = self@;
        let mut decl = self.update_layer_builders;
        let mut layers: Vec<UpdateLayer> = Vec::new();
        let n = decl.len();
        let mut i: usize = 0;
        // Take the declarations out from the front, keeping their positions.
        let mut rev: Vec<LayerDecl> = Vec::new();
        while decl.len() > 0
            invariant
                decl@.len() + rev@.len() == n,
                n == decls.len(),
                forall|j: int| 0 <= j < decl@.len() ==> #[trigger] decl@[j] == decls[j],
                forall|j: int| 0 <= j < rev@.len() ==> #[trigger] rev@[j] == decls[n - 1 - j],
            decreases decl@.len(),
        {
            match decl.pop() {
                Some(d) => rev.push(d),
                None => {},
            }
        }
        while i < n
            invariant
                n == decls.len(),
                i <= n,
                rev@.len() == n - i,
                forall|j: int| 0 <= j < rev@.len() ==> #[trigger] rev@[j] == decls[n - 1 - j],
                layers@.len() == kept_positions(decls.take(i as int)).len(),
                forall|k: int|
                    0 <= k < layers@.len() ==> {
                        let p = kept_positions(decls.take(i as int))[k] as int;
                        let l = #[trigger] layers@[k];
                        &&& l.schedule == p
                        &&& l.name == decls[p].0
                        &&& l.timer.target_ticks == decls[p].1
                        &&& l.timer.target_delta@ == target_delta_nanos(decls[p].1)
                        &&& l.timer.last_tick == now
                        &&& l.timer.accumulated_delta@ == 0
                        &&& !l.timer.has_ticked
                    },
            decreases n - i,
        {
            let d = rev.pop();
            proof {
                assert(decls.take(i + 1).drop_last() =~= decls.take(i as int));
                assert(decls.take(i + 1).last() == decls[i as int]);
                lemma_kept_positions_bound(decls.take(i as int));
            }
            match d {
                Some((name, frequency, count)) => {
                    if count != 0 {
                        layers.push(
                            UpdateLayer { name, timer: Timer::new(frequency, now), schedule: i },
                        );
                    }
                },
                None => {},
            }
            i = i + 1;
        }
        proof {
            assert(decls.take(n as int) =~= decls);
            lemma_kept_positions_increasing(decls);
            lemma_kept_positions_bound(decls);
            assert forall|a: int, b: int|
                0 <= a < b < layers@.len() implies #[trigger] layers@[a].name@
                != #[trigger] layers@[b].name@ by {
                let pa = kept_positions(decls)[a] as int;
                let pb = kept_positions(decls)[b] as int;
                assert(pa < pb);
                assert(layers@[a].name == decls[pa].0);
                assert(layers@[b].name == decls[pb].0);
            }
        }
        App { update_layers: layers }
    }
}

proof fn lemma_kept_positions_increasing(decls: Seq<LayerDecl>)
    requires
        decls.len() <= usize::MAX,
    ensures
        forall|a: int, b: int|
            0 <= a < b < kept_positions(decls).len() ==> #[trigger] kept_positions(decls)[a]
                < #[trigger] kept_positions(decls)[b],
    decreases decls.len(),
{
    if decls.len() > 0 {
        let rest = kept_positions(decls.drop_last());
        lemma_kept_positions_increasing(decls.drop_last());
        lemma_kept_positions_bound(decls.drop_last());
        assert forall|a: int, b: int|
            0 <= a < b < kept_positions(decls).len() implies #[trigger] kept_positions(decls)[a]
            < #[trigger] kept_positions(decls)[b] by {
            assert(kept_positions(decls)[a] == rest[a]);
            if b < rest.len() {
                assert(kept_positions(decls)[b] == rest[b]);
            }
        }
    }
}

proof fn lemma_kept_positions_bound(decls: Seq<LayerDecl>)
    requires
        decls.len() <= usize::MAX,
    ensures
        forall|k: int|
            0 <= k < kept_positions(decls).len() ==> #[trigger] kept_positions(decls)[k] < decls.len(),
    decreases decls.len(),
{
    if decls.len() > 0 {
        let rest = kept_positions(decls.drop_last());
        lemma_kept_positions_bound(decls.drop_last());
        assert forall|k: int|
            0 <= k < kept_positions(decls).len() implies #[trigger] kept_positions(decls)[k]
            < decls.len() by {
            if k < rest.len() {
                assert(kept_positions(decls)[k] == rest[k]);
            }
        }
    }
}

/// A running update layer: its name, its clock and the position of its
/// schedule.
#[derive(Debug)]
pub struct UpdateLayer {
    pub name: String,
    pub timer: Timer,
    pub schedule: usize,
}

/// The first running layer named `name` is at position `i`.
pub open spec fn first_layer_named(layers: Seq<UpdateLayer>, name: Seq<char>, i: int) -> bool {
    &&& 0 <= i < layers.len()
    &&& layers[i].name@ == name
    &&& forall|j: int| 0 <= j < i ==> layers[j].name@ != name
}

/// Whether a running layer is named `name`.
pub open spec fn has_layer_named(layers: Seq<UpdateLayer>, name: Seq<char>) -> bool {
    exists|i: int| 0 <= i < layers.len() && layers[i].name@ == name
}

/// `after` is `before` with the first layer named `name` set to run at
/// `frequency`, its accumulated time and everything else kept.
pub open spec fn frequency_set(
    before: Seq<UpdateLayer>,
    after: Seq<UpdateLayer>,
    name: Seq<char>,
    frequency: u32,
) -> bool {
    &&& after.len() == before.len()
    &&& exists|i: int|
        first_layer_named(before, name, i) && {
            let o = before[i];
            let l = after[i];
            &&& l.name == o.name
            &&& l.schedule == o.schedule
            &&& l.timer.target_ticks == frequency
            &&& l.timer.target_delta@ == target_delta_nanos(frequency)
            &&& l.timer.last_tick == o.timer.last_tick
            &&& l.timer.accumulated_delta == o.timer.accumulated_delta
            &&& l.timer.has_ticked == o.timer.has_ticked
            &&& forall|j: int| 0 <= j < before.len() && j != i ==> after[j] == before[j]
        }
}

/// Whether layer `j` is the first layer of its name.
pub open spec fn first_of_its_name(layers: Seq<UpdateLayer>, j: int) -> bool {
    forall|k: int| 0 <= k < j ==> #[trigger] layers[k].name@ != layers[j].name@
}

/// The frequency the requests `reqs` give layer `j`: the one requested for
/// its name, if it is the first layer of that name.
pub open spec fn layer_request(layers: Seq<UpdateLayer>, reqs: Seq<(String, u32)>, j: int) -> Option<
    u32,
> {
    if first_of_its_name(layers, j) {
        misc::requested_frequency(reqs, layers[j].name@)
    } else {
        None
    }
}

/// `after` is `before` with every requested frequency applied: each layer
/// that `reqs` gives a frequency runs at it, counting the interval of that
/// rate; everything else is kept.
pub open spec fn frequencies_applied(
    before: Seq<UpdateLayer>,
    after: Seq<UpdateLayer>,
    reqs: Seq<(String, u32)>,
) -> bool {
    &&& after.len() == before.len()
    &&& forall|j: int|
        0 <= j < before.len() ==> {
            let o = before[j];
            let l = #[trigger] after[j];
            &&& l.name == o.name
            &&& l.schedule == o.schedule
            &&& l.timer.last_tick == o.timer.last_tick
            &&& l.timer.accumulated_delta == o.timer.accumulated_delta
            &&& l.timer.has_ticked == o.timer.has_ticked
            &&& match layer_request(before, reqs, j) {
                Some(f) => l.timer.target_ticks == f && l.timer.target_delta@ == target_delta_nanos(
                    f,
                ),
                None => l.timer.target_ticks == o.timer.target_ticks && l.timer.target_delta
                    == o.timer.target_delta,
            }
        }
}

/// Every request names a running layer.
pub open spec fn requests_name_layers(layers: Seq<UpdateLayer>, reqs: Seq<(String, u32)>) -> bool {
    forall|i: int| 0 <= i < reqs.len() ==> has_layer_named(layers, #[trigger] reqs[i].0@)
}

/// The clock of a layer, instants and spans in nanoseconds.
pub struct ClockModel {
    pub target_delta: nat,
    pub last_tick: nat,
    pub accumulated: nat,
}

/// The state of the clock `t`.
pub open spec fn clock_model(t: Timer) -> ClockModel {
    ClockModel {
        target_delta: t.target_delta@,
        last_tick: t.last_tick@,
        accumulated: t.accumulated_delta@,
    }
}

/// One pass of the main loop over a layer at `now`: the time since the last
/// pass accumulates, and one interval is consumed, and the layer runs, if a
/// whole one has accumulated.
pub open spec fn layer_step(m: ClockModel, now: nat) -> (ClockModel, bool) {
    let acc = m.accumulated + elapsed(m.last_tick, now);
    if acc >= m.target_delta {
        (ClockModel { last_tick: now, accumulated: (acc - m.target_delta) as nat, ..m }, true)
    } else {
        (ClockModel { last_tick: now, accumulated: acc, ..m }, false)
    }
}

/// The clock after passes at each of the readings `nows`, in order.
pub open spec fn layer_run(m: ClockModel, nows: Seq<nat>) -> ClockModel
    decreases nows.len(),
{
    if nows.len() == 0 {
        m
    } else {
        layer_step(layer_run(m, nows.drop_last()), nows.last()).0
    }
}

/// How many of the passes at the readings `nows` run the layer.
pub open spec fn layer_run_count(m: ClockModel, nows: Seq<nat>) -> nat
    decreases nows.len(),
{
    if nows.len() == 0 {
        0
    } else {
        layer_run_count(m, nows.drop_last()) + if layer_step(
            layer_run(m, nows.drop_last()),
            nows.last(),
        ).1 {
            1nat
        } else {
            0nat
        }
    }
}

/// An update layer runs once per whole interval of the time that passes:
/// over any run of passes, the intervals consumed by its runs and the time
/// still accumulated add up to the time accumulated before plus the time
/// the clock advanced. Its interval never changes by passing.
pub proof fn lemma_layer_keeps_time(m: ClockModel, nows: Seq<nat>)
    requires
        readings_from(m.last_tick, nows),
    ensures
        layer_run(m, nows).target_delta == m.target_delta,
        nows.len() > 0 ==> layer_run(m, nows).last_tick == nows.last(),
        nows.len() > 0 ==> layer_run_count(m, nows) * m.target_delta + layer_run(m, nows).accumulated
            == m.accumulated + (nows.last() - m.last_tick),
    decreases nows.len(),
{
    if nows.len() > 0 {
        let rest = nows.drop_last();
        assert(readings_from(m.last_tick, rest));
        lemma_layer_keeps_time(m, rest);
        let r = layer_run(m, rest);
        let c = layer_run_count(m, rest);
        let t = m.target_delta;
        let x = nows.last();
        let start = if rest.len() > 0 { rest.last() } else { m.last_tick };
        if rest.len() > 0 {
            assert(rest.last() == nows[nows.len() - 2]);
            assert(r.last_tick == start);
        } else {
            assert(c == 0);
            assert(0 * t == 0) by (nonlinear_arith);
        }
        assert(start <= x);
        let diff = elapsed(r.last_tick, x);
        assert(diff == x - start);
        assert(c * t + r.accumulated == m.accumulated + (start - m.last_tick));
        if layer_step(r, x).1 {
            assert(layer_run_count(m, nows) == c + 1);
            assert((c + 1) * t == c * t + t) by (nonlinear_arith);
        } else {
            assert(layer_run_count(m, nows) == c);
        }
    }
}

/// A running application: its update layers.
#[derive(Debug)]
pub struct App {
    pub update_layers: Vec<UpdateLayer>,
}

impl App {
    /// Starts declaring an application.
    pub fn build() -> (b: AppBuilder)
        ensures
            b@ == Seq::<LayerDecl>::empty(),
    {
        AppBuilder::new()
    }

    /// Advances the clock of layer `i` to `now` and says whether the layer
    /// is due to run.
    pub fn tick_layer(&mut self, i: usize, now: Instant) -> (due: bool)
        requires
            i < old(self).update_layers@.len(),
            old(self).update_layers@[i as int].timer.accumulated_delta@ + elapsed(
                old(self).update_layers@[i as int].timer.last_tick@,
                now@,
            ) <= max_nanos(),
        ensures
            final(self).update_layers@.len() == old(self).update_layers@.len(),
            forall|j: int|
                0 <= j < old(self).update_layers@.len() && j != i ==> final(self).update_layers@[j] == old(self).update_layers@[j],
            ({
                let o = old(self).update_layers@[i as int];
                let l = final(self).update_layers@[i as int];
                let acc = o.timer.accumulated_delta@ + elapsed(o.timer.last_tick@, now@);
                &&& l.name == o.name
                &&& l.schedule == o.schedule
                &&& l.timer.target_ticks == o.timer.target_ticks
                &&& l.timer.target_delta == o.timer.target_delta
                &&& l.timer.last_tick == now
                &&& due == (acc >= o.timer.target_delta@)
                &&& l.timer.accumulated_delta@ == if due {
                    acc - o.timer.target_delta@
                } else {
                    acc as int
                }
                &&& l.timer.has_ticked == due
            }),
            layer_step(clock_model(old(self).update_layers@[i as int].timer), now@) == (
                clock_model(final(self).update_layers@[i as int].timer),
                due,
            ),
    {
        let mut layer = self.update_layers.remove(i);
        layer.timer.update(now);
        let due = layer.timer.tick();
        self.update_layers.insert(i, layer);
        proof {
            assert forall|j: int|
                0 <= j < old(self).update_layers@.len() && j != i implies #[trigger] self.update_layers@[j]
                == old(self).update_layers@[j] by {}
        }
        due
    }

    /// The position of the first layer named `layer_name`, if any.
    fn find_layer(&self, layer_name: &str) -> (r: Option<usize>)
        ensures
            r matches Some(i) ==> first_layer_named(self.update_layers@, layer_name@, i as int),
            r is None <==> !has_layer_named(self.update_layers@, layer_name@),
    {
        let key = layer_name.to_owned();
        let mut i: usize = 0;
        while i < self.update_layers.len()
            invariant
                key@ == layer_name@,
                i <= self.update_layers@.len(),
                forall|j: int| 0 <= j < i ==> self.update_layers@[j].name@ != layer_name@,
            decreases self.update_layers@.len() - i,
        {
            if self.update_layers[i].name == key {
                return Some(i);
            }
            i = i + 1;
        }
        None
    }

    /// Sets the frequency of the first layer named `layer_name`, which must
    /// exist.
    pub fn set_update_layer_frequency(&mut self, layer_name: &str, target_frequency: u32)
        requires
            has_layer_named(old(self).update_layers@, layer_name@),
        ensures
            frequency_set(
                old(self).update_layers@,
                final(self).update_layers@,
                layer_name@,
                target_frequency,
            ),
    {
        let i = match self.find_layer(layer_name) {
            Some(i) => i,
            None => {
                return ;
            },
        };
        let mut layer = self.update_layers.remove(i);
        layer.timer.set_ticks_per_second(target_frequency);
        self.update_layers.insert(i, layer);
        proof {
            assert(first_layer_named(old(self).update_layers@, layer_name@, i as int));
            assert forall|j: int|
                0 <= j < old(self).update_layers@.len() && j != i implies #[trigger] self.update_layers@[j]
                == old(self).update_layers@[j] by {}
        }
    }

    /// Whether `parse_settings` can carry out the requests pending in
    /// `settings`: no redraw rate is requested, and every requested layer
    /// frequency names a running layer.
    pub fn parse_settings_fits(&self, settings: &AppSettings) -> (b: bool)
        ensures
            b == (requests_name_layers(self.update_layers@, settings@.frequencies)
                && !settings@.commands.dom().contains(1)),
    {
        if settings.pending_command(1).is_some() {
            return false;
        }
        let reqs = settings.pending_frequency_requests();
        let mut i: usize = 0;
        while i < reqs.len()
            invariant
                reqs@ == settings@.frequencies,
                i <= reqs@.len(),
                forall|k: int| 0 <= k < i ==> has_layer_named(self.update_layers@, #[trigger] reqs@[k].0@),
            decreases reqs@.len() - i,
        {
            if self.find_layer(reqs[i].0.as_str()).is_none() {
                return false;
            }
            i = i + 1;
        }
        true
    }

    /// Carries out the requests pending in `settings` and clears them: every
    /// requested layer frequency is applied to the first layer of that name,
    /// which must exist. A requested redraw rate is not supported and must
    /// not be pending. The window requests are handed back, one per kind, for
    /// the window to carry out.
    pub fn parse_settings(&mut self, settings: &mut AppSettings) -> (window_commands: Vec<
        AppCommand,
    >)
        requires
            requests_name_layers(old(self).update_layers@, old(settings)@.frequencies),
            !old(settings)@.commands.dom().contains(1),
        ensures
            final(settings)@ == (SettingsModel {
                frequencies: Seq::empty(),
                commands: Map::empty(),
                ..old(settings)@
            }),
            frequencies_applied(
                old(self).update_layers@,
                final(self).update_layers@,
                old(settings)@.frequencies,
            ),
            misc::lists_commands(window_commands@, old(settings)@.commands),
            forall|i: int| 0 <= i < window_commands@.len() ==> command_kind(#[trigger] window_commands@[i]) >= 2,
    {
        let ghost before = self.update_layers@;
        let mut reqs = settings.take_frequency_requests();
        let ghost rs = reqs@;
        let window_commands = settings.take_window_commands();
        let n = reqs.len();
        let mut idx: usize = 0;
        proof {
            assert forall|j: int| 0 <= j < before.len() implies layer_request(
                before,
                rs.take(0),
                j,
            ) is None by {
                assert(rs.take(0).len() == 0);
            }
        }
        while idx < n
            invariant
                n == rs.len(),
                idx <= n,
                reqs@ == rs.skip(idx as int),
                misc::distinct_requests(rs),
                requests_name_layers(before, rs),
                frequencies_applied(before, self.update_layers@, rs.take(idx as int)),
            decreases n - idx,
        {
            let ghost cur = self.update_layers@;
            let (name, frequency) = reqs.remove(0);
            proof {
                assert(rs[idx as int] == (name, frequency));
                assert(reqs@ =~= rs.skip(idx + 1));
                let i0 = choose|i: int| 0 <= i < before.len() && before[i].name@ == name@;
                assert(has_layer_named(before, rs[idx as int].0@));
                let w = choose|i: int| 0 <= i < before.len() && before[i].name@ == rs[idx as int].0@;
                assert(cur[w].name == before[w].name);
            }
            self.set_update_layer_frequency(name.as_str(), frequency);
            proof {
                self.lemma_apply_one(before, cur, rs, idx as int);
            }
            idx = idx + 1;
        }
        proof {
            assert(rs.take(n as int) =~= rs);
            assert forall|i: int| 0 <= i < window_commands@.len() implies command_kind(
                #[trigger] window_commands@[i],
            ) >= 2 by {
                let k = command_kind(window_commands@[i]);
                assert(old(settings)@.commands.dom().contains(k));
            }
        }
        window_commands
    }

    /// Applying the request at `idx` after those before it.
    proof fn lemma_apply_one(
        &self,
        before: Seq<UpdateLayer>,
        cur: Seq<UpdateLayer>,
        rs: Seq<(String, u32)>,
        idx: int,
    )
        requires
            0 <= idx < rs.len(),
            misc::distinct_requests(rs),
            frequencies_applied(before, cur, rs.take(idx)),
            frequency_set(cur, self.update_layers@, rs[idx].0@, rs[idx].1),
        ensures
            frequencies_applied(before, self.update_layers@, rs.take(idx + 1)),
    {
        let after = self.update_layers@;
        let name = rs[idx].0@;
        let f = rs[idx].1;
        let r0 = rs.take(idx);
        let r1 = rs.take(idx + 1);
        assert(r1.drop_last() =~= r0);
        assert(r1.last() == rs[idx]);
        let i = choose|i: int|
            first_layer_named(cur, name, i) && {
                let o = cur[i];
                let l = after[i];
                &&& l.name == o.name
                &&& l.schedule == o.schedule
                &&& l.timer.target_ticks == f
                &&& l.timer.target_delta@ == target_delta_nanos(f)
                &&& l.timer.last_tick == o.timer.last_tick
                &&& l.timer.accumulated_delta == o.timer.accumulated_delta
                &&& l.timer.has_ticked == o.timer.has_ticked
                &&& forall|j: int| 0 <= j < cur.len() && j != i ==> after[j] == cur[j]
            };
        assert forall|j: int| 0 <= j < before.len() implies {
            let o = before[j];
            let l = #[trigger] after[j];
            &&& l.name == o.name
            &&& l.schedule == o.schedule
            &&& l.timer.last_tick == o.timer.last_tick
            &&& l.timer.accumulated_delta == o.timer.accumulated_delta
            &&& l.timer.has_ticked == o.timer.has_ticked
            &&& match layer_request(before, r1, j) {
                Some(g) => l.timer.target_ticks == g && l.timer.target_delta@ == target_delta_nanos(
                    g,
                ),
                None => l.timer.target_ticks == o.timer.target_ticks && l.timer.target_delta
                    == o.timer.target_delta,
            }
        } by {
            let c = cur[j];
            assert(c.name == before[j].name);
            // Names are the same in `before` and `cur`.
            assert(first_of_its_name(before, j) == first_of_its_name(cur, j)) by {
                if first_of_its_name(cur, j) {
                    assert forall|k: int| 0 <= k < j implies #[trigger] before[k].name@
                        != before[j].name@ by {
                        assert(cur[k].name == before[k].name);
                    }
                } else {
                    let k = choose|k: int| 0 <= k < j && #[trigger] cur[k].name@ == cur[j].name@;
                    assert(cur[k].name == before[k].name);
                }
            }
            if before[j].name@ == name {
                assert(misc::requested_frequency(r1, name) == Some(f));
                if j == i {
                    assert(first_of_its_name(cur, j));
                } else {
                    assert(after[j] == cur[j]);
                    if j < i {
                        assert(cur[j].name@ != name);
                    } else {
                        assert(cur[i].name@ == cur[j].name@);
                        assert(!first_of_its_name(cur, j));
                    }
                }
            } else {
                let nj = before[j].name@;
                let p = misc::request_position(r0, nj);
                assert(r1.last().0@ != nj);
                assert(misc::request_position(r1, nj) == p);
                misc::lemma_request_position(r0, nj);
                if p >= 0 {
                    assert(r1[p] == r0[p]);
                }
                assert(misc::requested_frequency(r1, nj) == misc::requested_frequency(r0, nj));
                assert(j != i);
                assert(after[j] == cur[j]);
            }
        }
    }
}

/// A pass runs the layer exactly when a whole interval has accumulated:
/// a pass that does not run leaves less than an interval, one that runs
/// consumes exactly one; either way the pass is remembered at `now`.
pub proof fn lemma_layer_runs_on_whole_interval(m: ClockModel, now: nat)
    ensures
        layer_step(m, now).1 <==> m.accumulated + elapsed(m.last_tick, now) >= m.target_delta,
        !layer_step(m, now).1 ==> layer_step(m, now).0.accumulated < m.target_delta,
        layer_step(m, now).1 ==> layer_step(m, now).0.accumulated + m.target_delta
            == m.accumulated + elapsed(m.last_tick, now),
        layer_step(m, now).0.last_tick == now,
        layer_step(m, now).0.target_delta == m.target_delta,
{
}

} // verus!
