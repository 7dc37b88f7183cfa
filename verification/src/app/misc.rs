use vstd::prelude::*;

use crate::clock::{elapsed, max_nanos, Duration, Instant};
use crate::misc::time::{target_delta, target_delta_nanos};
use super::{App, UpdateLayer};
use crate::table::{lemma_table_at, lemma_table_dom, table_map, unique_codes, Table};

verus! {

/// The rate the screen is redrawn at.
#[derive(Debug, Clone, Copy, PartialEq, Eq)]
pub enum RenderFramerate {
    /// 30 frames a second.
    Low,
    /// 60 frames a second.
    Normal,
    /// 144 frames a second.
    High,
    Custom(u32),
}

impl Default for RenderFramerate {
    fn default() -> (r: Self)
        ensures
            r == RenderFramerate::Normal,
    {
        RenderFramerate::Normal
    }
}

/// The clock of an update layer: time accumulates on `update` and `tick`
/// consumes one interval of it at a time.
#[derive(Debug, Clone, Copy)]
pub struct Timer {
    pub target_ticks: u32,
    pub target_delta: Duration,
    pub last_tick: Instant,
    pub accumulated_delta: Duration,
    pub has_ticked: bool,
}

impl Timer {
    /// A clock ticking `ticks_per_second` times a second, started at `now`.
    pub fn new(ticks_per_second: u32, now: Instant) -> (t: Timer)
        ensures
            t.target_ticks == ticks_per_second,
            t.target_delta@ == target_delta_nanos(ticks_per_second),
            t.last_tick == now,
            t.accumulated_delta@ == 0,
            !t.has_ticked,
    {
        Timer {
            target_ticks: ticks_per_second,
            target_delta: target_delta(ticks_per_second),
            last_tick: now,
            accumulated_delta: Duration::default(),
            has_ticked: false,
        }
    }

    /// Whether `update(now)` keeps the accumulated time within range.
    pub fn update_fits(&self, now: Instant) -> (b: bool)
        ensures
            b == (self.accumulated_delta@ + elapsed(self.last_tick@, now@) <= max_nanos()),
    {
        let diff = now.duration_since(&self.last_tick);
        self.accumulated_delta.checked_add(diff).is_some()
    }

    /// Adds the time since the last update and clears the ticked flag.
    pub fn update(&mut self, now: Instant)
        requires
            old(self).accumulated_delta@ + elapsed(old(self).last_tick@, now@) <= max_nanos(),
        ensures
            final(self).target_ticks == old(self).target_ticks,
            final(self).target_delta == old(self).target_delta,
            final(self).last_tick == now,
            final(self).accumulated_delta@ == old(self).accumulated_delta@ + elapsed(
                old(self).last_tick@,
                now@,
            ),
            !final(self).has_ticked,
    {
        let diff = now.duration_since(&self.last_tick);
        self.last_tick = now;
        self.accumulated_delta = self.accumulated_delta.add(diff);
        self.has_ticked = false;
    }

    /// Consumes one interval if a whole one has accumulated, and says
    /// whether it did.
    pub fn tick(&mut self) -> (ticked: bool)
        ensures
            ticked == (old(self).accumulated_delta@ >= old(self).target_delta@),
            final(self).target_ticks == old(self).target_ticks,
            final(self).target_delta == old(self).target_delta,
            final(self).last_tick == old(self).last_tick,
            final(self).accumulated_delta@ == if ticked {
                old(self).accumulated_delta@ - old(self).target_delta@
            } else {
                old(self).accumulated_delta@ as int
            },
            final(self).has_ticked == if ticked {
                true
            } else {
                old(self).has_ticked
            },
    {
        if self.accumulated_delta.ge(&self.target_delta) {
            self.accumulated_delta = self.accumulated_delta.sub(self.target_delta);
            self.has_ticked = true;
            true
        } else {
            false
        }
    }

    /// Changes the rate; the accumulated time is kept.
    pub fn set_ticks_per_second(&mut self, ticks_per_second: u32)
        ensures
            final(self).target_ticks == ticks_per_second,
            final(self).target_delta@ == target_delta_nanos(ticks_per_second),
            final(self).last_tick == old(self).last_tick,
            final(self).accumulated_delta == old(self).accumulated_delta,
            final(self).has_ticked == old(self).has_ticked,
    {
        self.target_ticks = ticks_per_second;
        self.target_delta = target_delta(ticks_per_second);
    }
}

/// A change requested of the application or its window.
#[derive(Debug)]
pub enum AppCommand {
    SetUpdateLayerFrequency(String, u32),
    SetRenderFramerate(RenderFramerate),
    SetWindowAlwaysOnTop(bool),
    SetWindowCursorGrab(bool),
    SetWindowFullScreen(bool),
    SetWindowInnerSize((u32, u32)),
    SetWindowMaxInnerSize((u32, u32)),
    SetWindowMaximized(bool),
    SetWindowMinInnerSize((u32, u32)),
    SetWindowMinimized(bool),
    SetWindowOuterPosition((i32, i32)),
    SetWindowResizable(bool),
    SetWindowTitle(String),
    SetWindowVisible(bool),
}

/// The kind of a command: its position among the variants.
pub open spec fn command_kind(c: AppCommand) -> u32 {
    match c {
        AppCommand::SetUpdateLayerFrequency(..) => 0,
        AppCommand::SetRenderFramerate(..) => 1,
        AppCommand::SetWindowAlwaysOnTop(..) => 2,
        AppCommand::SetWindowCursorGrab(..) => 3,
        AppCommand::SetWindowFullScreen(..) => 4,
        AppCommand::SetWindowInnerSize(..) => 5,
        AppCommand::SetWindowMaxInnerSize(..) => 6,
        AppCommand::SetWindowMaximized(..) => 7,
        AppCommand::SetWindowMinInnerSize(..) => 8,
        AppCommand::SetWindowMinimized(..) => 9,
        AppCommand::SetWindowOuterPosition(..) => 10,
        AppCommand::SetWindowResizable(..) => 11,
        AppCommand::SetWindowTitle(..) => 12,
        AppCommand::SetWindowVisible(..) => 13,
    }
}

impl AppCommand {
    fn kind(&self) -> (k: u32)
        ensures
            k == command_kind(*self),
    {
        match self {
            AppCommand::SetUpdateLayerFrequency(..) => 0,
            AppCommand::SetRenderFramerate(..) => 1,
            AppCommand::SetWindowAlwaysOnTop(..) => 2,
            AppCommand::SetWindowCursorGrab(..) => 3,
            AppCommand::SetWindowFullScreen(..) => 4,
            AppCommand::SetWindowInnerSize(..) => 5,
            AppCommand::SetWindowMaxInnerSize(..) => 6,
            AppCommand::SetWindowMaximized(..) => 7,
            AppCommand::SetWindowMinInnerSize(..) => 8,
            AppCommand::SetWindowMinimized(..) => 9,
            AppCommand::SetWindowOuterPosition(..) => 10,
            AppCommand::SetWindowResizable(..) => 11,
            AppCommand::SetWindowTitle(..) => 12,
            AppCommand::SetWindowVisible(..) => 13,
        }
    }
}

/// The state of the settings: what they report, the pending frequency
/// requests, one per layer name in the order the layers were first named,
/// and the other pending commands, one per kind.
pub struct SettingsModel {
    pub render_framerate: RenderFramerate,
    pub layers: Seq<(String, u32)>,
    pub is_fullscreen: bool,
    pub inner_position: (i32, i32),
    pub inner_size: (u32, u32),
    pub outer_position: (i32, i32),
    pub outer_size: (u32, u32),
    pub frequencies: Seq<(String, u32)>,
    pub commands: Map<u32, AppCommand>,
}

/// What systems see of the application: its settings, and the requested
/// changes: a frequency per update layer, and a window change per kind.
#[derive(Debug)]
pub struct AppSettings {
    render_framerate_current: RenderFramerate,
    layer_to_frequency_current: Vec<(String, u32)>,
    is_fullscreen: bool,
    inner_position: (i32, i32),
    inner_size: (u32, u32),
    outer_position: (i32, i32),
    outer_size: (u32, u32),
    frequency_requests: Vec<(String, u32)>,
    commands: Table<AppCommand>,
}

impl View for AppSettings {
    type V = SettingsModel;

    closed spec fn view(&self) -> SettingsModel {
        SettingsModel {
            render_framerate: self.render_framerate_current,
            layers: self.layer_to_frequency_current@,
            is_fullscreen: self.is_fullscreen,
            inner_position: self.inner_position,
            inner_size: self.inner_size,
            outer_position: self.outer_position,
            outer_size: self.outer_size,
            frequencies: self.frequency_requests@,
            commands: self.commands@,
        }
    }
}

/// The update layers of a running application by name and frequency.
pub open spec fn layer_frequencies(layers: Seq<UpdateLayer>) -> Seq<(String, u32)> {
    layers.map_values(|l: UpdateLayer| (l.name, l.timer.target_ticks))
}

/// The layer named `name` comes first at position `i`.
pub open spec fn first_layer_named(layers: Seq<(String, u32)>, name: Seq<char>, i: int) -> bool {
    &&& 0 <= i < layers.len()
    &&& layers[i].0@ == name
    &&& forall|j: int| 0 <= j < i ==> layers[j].0@ != name
}

/// Whether some layer is named `name`.
pub open spec fn has_layer_named(layers: Seq<(String, u32)>, name: Seq<char>) -> bool {
    exists|i: int| 0 <= i < layers.len() && layers[i].0@ == name
}

/// No two requests name the same layer.
pub open spec fn distinct_requests(reqs: Seq<(String, u32)>) -> bool {
    forall|i: int, j: int| 0 <= i < j < reqs.len() ==> #[trigger] reqs[i].0@ != #[trigger] reqs[j].0@
}

/// The position of the last request for the layer `name`, or -1.
pub open spec fn request_position(reqs: Seq<(String, u32)>, name: Seq<char>) -> int
    decreases reqs.len(),
{
    if reqs.len() == 0 {
        -1
    } else if reqs.last().0@ == name {
        reqs.len() - 1
    } else {
        request_position(reqs.drop_last(), name)
    }
}

/// The frequency requested for the layer `name`, if any.
pub open spec fn requested_frequency(reqs: Seq<(String, u32)>, name: Seq<char>) -> Option<u32> {
    let p = request_position(reqs, name);
    if p >= 0 {
        Some(reqs[p].1)
    } else {
        None
    }
}

/// The requests after asking for `frequency` for the layer `name`: the
/// pending request for that layer takes the new frequency, or the request
/// joins the end.
pub open spec fn set_request(reqs: Seq<(String, u32)>, name: String, frequency: u32) -> Seq<
    (String, u32),
> {
    let p = request_position(reqs, name@);
    if p >= 0 {
        reqs.update(p, (name, frequency))
    } else {
        reqs.push((name, frequency))
    }
}

/// The requests as commands, in order.
pub open spec fn frequency_commands(reqs: Seq<(String, u32)>) -> Seq<AppCommand> {
    reqs.map_values(|r: (String, u32)| AppCommand::SetUpdateLayerFrequency(r.0, r.1))
}

/// Where `request_position` points.
pub proof fn lemma_request_position(reqs: Seq<(String, u32)>, name: Seq<char>)
    ensures
        request_position(reqs, name) == -1 <==> forall|i: int|
            0 <= i < reqs.len() ==> #[trigger] reqs[i].0@ != name,
        request_position(reqs, name) >= 0 ==> {
            let p = request_position(reqs, name);
            &&& p < reqs.len()
            &&& reqs[p].0@ == name
            &&& forall|j: int| p < j < reqs.len() ==> #[trigger] reqs[j].0@ != name
        },
        request_position(reqs, name) >= -1,
    decreases reqs.len(),
{
    if reqs.len() > 0 {
        let rest = reqs.drop_last();
        lemma_request_position(rest, name);
        assert forall|i: int| 0 <= i < rest.len() implies rest[i] == reqs[i] by {}
        if reqs.last().0@ != name {
            if request_position(rest, name) == -1 {
                assert forall|i: int| 0 <= i < reqs.len() implies #[trigger] reqs[i].0@ != name by {
                    if i < rest.len() {
                        assert(rest[i] == reqs[i]);
                    }
                }
            } else {
                assert(reqs[request_position(rest, name)] == rest[request_position(rest, name)]);
            }
        }
    }
}

/// Requests for different layers are all kept: after asking for a frequency
/// for one layer, that layer's request is the new frequency, and every
/// other layer's request is what it was. Requests stay one per layer.
pub proof fn lemma_each_layer_request_kept(
    reqs: Seq<(String, u32)>,
    name: String,
    frequency: u32,
    other: Seq<char>,
)
    requires
        distinct_requests(reqs),
    ensures
        requested_frequency(set_request(reqs, name, frequency), name@) == Some(frequency),
        other != name@ ==> requested_frequency(set_request(reqs, name, frequency), other)
            == requested_frequency(reqs, other),
        distinct_requests(set_request(reqs, name, frequency)),
{
    let after = set_request(reqs, name, frequency);
    let p = request_position(reqs, name@);
    lemma_request_position(reqs, name@);
    lemma_request_position(reqs, other);
    lemma_request_position(after, name@);
    lemma_request_position(after, other);
    if p >= 0 {
        assert(after[p].0@ == name@);
        assert forall|i: int, j: int| 0 <= i < j < after.len() implies #[trigger] after[i].0@
            != #[trigger] after[j].0@ by {
            if i == p {
                assert(reqs[j].0@ != reqs[p].0@);
            } else if j == p {
                assert(reqs[i].0@ != reqs[p].0@);
            }
        }
        if request_position(after, name@) != p {
            let q = request_position(after, name@);
            assert(after[q].0@ == name@);
            if q < p {
                assert(reqs[q].0@ != reqs[p].0@);
            }
        }
        if other != name@ {
            let qa = request_position(after, other);
            let qr = request_position(reqs, other);
            if qa >= 0 {
                assert(after[qa] == reqs[qa]);
                if qr != qa {
                    if qr > qa {
                        assert(after[qr] == reqs[qr]);
                    } else if qr >= 0 {
                        assert(reqs[qr].0@ != reqs[qa].0@);
                    }
                }
            } else if qr >= 0 {
                assert(after[qr] == reqs[qr]);
            }
        }
    } else {
        assert(after.drop_last() =~= reqs);
        assert forall|i: int, j: int| 0 <= i < j < after.len() implies #[trigger] after[i].0@
            != #[trigger] after[j].0@ by {
            if j == reqs.len() {
                assert(after[i] == reqs[i]);
            } else {
                assert(after[i] == reqs[i] && after[j] == reqs[j]);
            }
        }
    }
}

/// Every pending command is filed under its own kind.
pub open spec fn commands_by_kind(commands: Map<u32, AppCommand>) -> bool {
    forall|k: u32| #[trigger] commands.dom().contains(k) ==> command_kind(commands[k]) == k
}

/// The commands `v` are exactly the pending ones `m`, in some order.
pub open spec fn lists_commands(v: Seq<AppCommand>, m: Map<u32, AppCommand>) -> bool {
    &&& forall|i: int|
        0 <= i < v.len() ==> m.dom().contains(command_kind(#[trigger] v[i])) && m[command_kind(
            v[i],
        )] == v[i]
    &&& forall|i: int, j: int|
        0 <= i < j < v.len() ==> command_kind(#[trigger] v[i]) != command_kind(#[trigger] v[j])
    &&& forall|k: u32|
        #[trigger] m.dom().contains(k) ==> exists|i: int| 0 <= i < v.len() && command_kind(v[i]) == k
}

/// A later request replaces a pending one of the same kind and leaves those
/// of other kinds pending.
pub proof fn lemma_later_request_replaces(
    commands: Map<u32, AppCommand>,
    first: AppCommand,
    second: AppCommand,
)
    ensures
        command_kind(first) == command_kind(second) ==> commands.insert(
            command_kind(first),
            first,
        ).insert(command_kind(second), second) == commands.insert(command_kind(second), second),
        command_kind(first) != command_kind(second) ==> {
            let after = commands.insert(command_kind(first), first).insert(
                command_kind(second),
                second,
            );
            &&& after.dom().contains(command_kind(first))
            &&& after[command_kind(first)] == first
        },
{
    if command_kind(first) == command_kind(second) {
        assert(commands.insert(command_kind(first), first).insert(command_kind(second), second)
            =~= commands.insert(command_kind(second), second));
    }
}

impl AppSettings {
    #[verifier::type_invariant]
    spec fn filed_by_kind(self) -> bool {
        &&& commands_by_kind(self.commands@)
        &&& !self.commands@.dom().contains(0)
        &&& distinct_requests(self.frequency_requests@)
    }

    /// Settings for the application `app`: its update layers by name and
    /// frequency, the default redraw rate, the window not yet known and no
    /// pending command.
    pub fn new(app: &App) -> (s: AppSettings)
        ensures
            s@ == (SettingsModel {
                render_framerate: RenderFramerate::Normal,
                layers: layer_frequencies(app.update_layers@),
                is_fullscreen: false,
                inner_position: (0, 0),
                inner_size: (0, 0),
                outer_position: (0, 0),
                outer_size: (0, 0),
                frequencies: Seq::empty(),
                commands: Map::empty(),
            }),
    {
        let n = app.update_layers.len();
        let mut layers: Vec<(String, u32)> = Vec::new();
        let mut i: usize = 0;
        while i < n
            invariant
                n == app.update_layers@.len(),
                i <= n,
                layers@ == layer_frequencies(app.update_layers@.take(i as int)),
            decreases n - i,
        {
            let name = app.update_layers[i].name.clone();
            let frequency = app.update_layers[i].timer.target_ticks;
            layers.push((name, frequency));
            proof {
                assert(layer_frequencies(app.update_layers@.take(i + 1)) =~= layer_frequencies(
                    app.update_layers@.take(i as int),
                ).push((app.update_layers@[i as int].name, app.update_layers@[i as int].timer.target_ticks)));
            }
            i = i + 1;
        }
        proof {
            assert(app.update_layers@.take(n as int) =~= app.update_layers@);
        }
        AppSettings {
            render_framerate_current: RenderFramerate::default(),
            layer_to_frequency_current: layers,
            is_fullscreen: false,
            inner_position: (0, 0),
            inner_size: (0, 0),
            outer_position: (0, 0),
            outer_size: (0, 0),
            frequency_requests: Vec::new(),
            commands: Table::new(),
        }
    }

    /// Hands out the pending frequency requests, in order, one per layer, and
    /// clears them.
    pub fn take_frequency_requests(&mut self) -> (r: Vec<(String, u32)>)
        ensures
            r@ == old(self)@.frequencies,
            distinct_requests(r@),
            final(self)@ == (SettingsModel { frequencies: Seq::empty(), ..old(self)@ }),
    {
        proof {
            use_type_invariant(&*self);
        }
        let mut reqs: Vec<(String, u32)> = Vec::new();
        std::mem::swap(&mut reqs, &mut self.frequency_requests);
        reqs
    }

    /// Hands out the other pending commands, one per kind, and clears them.
    pub fn take_window_commands(&mut self) -> (v: Vec<AppCommand>)
        ensures
            lists_commands(v@, old(self)@.commands),
            !old(self)@.commands.dom().contains(0),
            final(self)@ == (SettingsModel { commands: Map::empty(), ..old(self)@ }),
    {
        proof {
            use_type_invariant(&*self);
        }
        let ghost m = self.commands@;
        let mut commands: Table<AppCommand> = Table::new();
        std::mem::swap(&mut commands, &mut self.commands);
        let mut entries = commands.take_entries();
        let ghost e = entries@;
        let n = entries.len();
        let mut out: Vec<AppCommand> = Vec::new();
        while entries.len() > 0
            invariant
                unique_codes(e),
                table_map(e) == m,
                commands_by_kind(m),
                n == e.len(),
                entries@ == e.take(entries@.len() as int),
                out@.len() + entries@.len() == n,
                forall|j: int|
                    0 <= j < out@.len() ==> #[trigger] out@[j] == e[n - 1 - j].1,
            decreases entries@.len(),
        {
            let last = entries.pop();
            match last {
                Some((_, c)) => {
                    out.push(c);
                },
                None => {},
            }
            proof {
                assert(entries@ =~= e.take(entries@.len() as int));
            }
        }
        proof {
            assert forall|i: int| 0 <= i < n implies m.dom().contains(e[i].0) && m[e[i].0] == e[i].1
                && command_kind(e[i].1) == e[i].0 by {
                lemma_table_at(e, i);
            }
            assert forall|i: int| 0 <= i < out@.len() implies m.dom().contains(
                command_kind(#[trigger] out@[i]),
            ) && m[command_kind(out@[i])] == out@[i] by {
                assert(out@[i] == e[n - 1 - i].1);
            }
            assert forall|i: int, j: int| 0 <= i < j < out@.len() implies command_kind(
                #[trigger] out@[i],
            ) != command_kind(#[trigger] out@[j]) by {
                assert(out@[i] == e[n - 1 - i].1);
                assert(out@[j] == e[n - 1 - j].1);
            }
            assert forall|k: u32| #[trigger] m.dom().contains(k) implies exists|i: int|
                0 <= i < out@.len() && command_kind(out@[i]) == k by {
                lemma_table_dom(e, k);
                let i = choose|i: int| 0 <= i < e.len() && e[i].0 == k;
                assert(out@[n - 1 - i] == e[i].1);
            }
        }
        out
    }

    /// Hands out every pending request and clears them: the frequency
    /// requests first, in order, then the other commands, one per kind;
    /// `None` where there are none.
    pub fn take_commands(&mut self) -> (r: Option<Vec<AppCommand>>)
        ensures
            r is None <==> old(self)@.commands == Map::<u32, AppCommand>::empty()
                && old(self)@.frequencies.len() == 0,
            r matches Some(v) ==> {
                let f = old(self)@.frequencies.len() as int;
                &&& f <= v@.len()
                &&& v@.take(f) == frequency_commands(old(self)@.frequencies)
                &&& lists_commands(v@.skip(f), old(self)@.commands)
            },
            final(self)@ == (SettingsModel {
                frequencies: Seq::empty(),
                commands: Map::empty(),
                ..old(self)@
            }),
    {
        if self.commands.is_empty() && self.frequency_requests.len() == 0 {
            proof {
                assert(self@.frequencies =~= Seq::<(String, u32)>::empty());
            }
            return None;
        }
        let ghost fs = self@.frequencies;
        let mut reqs = self.take_frequency_requests();
        let mut tail = self.take_window_commands();
        let ghost t = tail@;
        let nf = reqs.len();
        let mut out: Vec<AppCommand> = Vec::new();
        let mut i: usize = 0;
        while i < nf
            invariant
                nf == fs.len(),
                i <= nf,
                reqs@ == fs.skip(i as int),
                out@ == frequency_commands(fs.take(i as int)),
            decreases nf - i,
        {
            let (name, frequency) = reqs.remove(0);
            out.push(AppCommand::SetUpdateLayerFrequency(name, frequency));
            proof {
                assert(reqs@ =~= fs.skip(i + 1));
                assert(out@ =~= frequency_commands(fs.take(i + 1)));
            }
            i = i + 1;
        }
        let nt = tail.len();
        let mut k: usize = 0;
        while k < nt
            invariant
                nt == t.len(),
                k <= nt,
                tail@ == t.skip(k as int),
                out@ == frequency_commands(fs) + t.take(k as int),
            decreases nt - k,
        {
            let c = tail.remove(0);
            out.push(c);
            proof {
                assert(tail@ =~= t.skip(k + 1));
                assert(out@ =~= frequency_commands(fs) + t.take(k + 1));
            }
            k = k + 1;
        }
        proof {
            assert(fs.take(nf as int) =~= fs);
            assert(t.take(nt as int) =~= t);
            assert(out@.take(nf as int) =~= frequency_commands(fs));
            assert(out@.skip(nf as int) =~= t);
        }
        Some(out)
    }

    /// The pending frequency requests, one per layer.
    pub fn pending_frequency_requests(&self) -> (r: &Vec<(String, u32)>)
        ensures
            r@ == self@.frequencies,
            distinct_requests(self@.frequencies),
    {
        proof {
            use_type_invariant(self);
        }
        &self.frequency_requests
    }

    /// The pending command of kind `kind`, if there is one.
    pub fn pending_command(&self, kind: u32) -> (r: Option<&AppCommand>)
        ensures
            r is Some <==> self@.commands.dom().contains(kind),
            r matches Some(c) ==> *c == self@.commands[kind],
    {
        self.commands.get_ref(kind)
    }

    /// The redraw rate the application runs at.
    pub fn get_render_framerate(&self) -> (r: RenderFramerate)
        ensures
            r == self@.render_framerate,
    {
        self.render_framerate_current
    }

    /// The frequency of the first update layer named `layer_name`, which must
    /// exist.
    pub fn get_update_layer_frequency(&self, layer_name: &str) -> (f: u32)
        requires
            has_layer_named(self@.layers, layer_name@),
        ensures
            exists|i: int|
                first_layer_named(self@.layers, layer_name@, i) && f == self@.layers[i].1,
    {
        let i = self.get_l2f(layer_name);
        match i {
            Some(i) => self.layer_to_frequency_current[i].1,
            None => 0,
        }
    }

    pub fn is_fullscreen(&self) -> (b: bool)
        ensures
            b == self@.is_fullscreen,
    {
        self.is_fullscreen
    }

    pub fn get_inner_position(&self) -> (p: (i32, i32))
        ensures
            p == self@.inner_position,
    {
        self.inner_position
    }

    pub fn get_inner_size(&self) -> (s: (u32, u32))
        ensures
            s == self@.inner_size,
    {
        self.inner_size
    }

    pub fn get_outer_position(&self) -> (p: (i32, i32))
        ensures
            p == self@.outer_position,
    {
        self.outer_position
    }

    pub fn get_outer_size(&self) -> (s: (u32, u32))
        ensures
            s == self@.outer_size,
    {
        self.outer_size
    }

    /// The update layers, by name and frequency.
    pub fn iter_update_layer_to_frequency(&self) -> (l: &Vec<(String, u32)>)
        ensures
            l@ == self@.layers,
    {
        &self.layer_to_frequency_current
    }

    /// Requests a redraw rate.
    pub fn set_render_framerate(&mut self, target_framerate: RenderFramerate)
        ensures
            final(self)@ == (SettingsModel {
                commands: old(self)@.commands.insert(
                    1,
                    AppCommand::SetRenderFramerate(target_framerate),
                ),
                ..old(self)@
            }),
    {
        self.insert_cmd(AppCommand::SetRenderFramerate(target_framerate));
    }

    /// Requests a frequency for the update layer `layer_name`: a pending
    /// request for that layer takes the new frequency, requests for other
    /// layers stay pending.
    pub fn set_update_layer_frequency(&mut self, layer_name: String, target_frequency: u32)
        ensures
            final(self)@ == (SettingsModel {
                frequencies: set_request(old(self)@.frequencies, layer_name, target_frequency),
                ..old(self)@
            }),
    {
        proof {
            use_type_invariant(&*self);
            lemma_request_position(self@.frequencies, layer_name@);
            lemma_each_layer_request_kept(self@.frequencies, layer_name, target_frequency, layer_name@);
        }
        let ghost before = self@.frequencies;
        let mut reqs: Vec<(String, u32)> = Vec::new();
        std::mem::swap(&mut reqs, &mut self.frequency_requests);
        let n = reqs.len();
        let mut i: usize = 0;
        let mut found = false;
        while i < n
            invariant_except_break
                reqs@ == before,
                n == before.len(),
                i <= n,
                !found,
                forall|j: int| 0 <= j < i ==> #[trigger] before[j].0@ != layer_name@,
            ensures
                reqs@ == before,
                n == before.len(),
                i <= n,
                found ==> i < n && before[i as int].0@ == layer_name@,
                !found ==> forall|j: int| 0 <= j < n ==> #[trigger] before[j].0@ != layer_name@,
            decreases n - i,
        {
            if reqs[i].0 == layer_name {
                found = true;
                break;
            }
            i = i + 1;
        }
        proof {
            let p = request_position(before, layer_name@);
            if found {
                if p != i {
                    if p > i {
                        assert(before[p].0@ != before[i as int].0@);
                    } else {
                        assert(p >= 0 ==> before[p].0@ == layer_name@);
                        assert(p == -1 ==> before[i as int].0@ != layer_name@);
                    }
                }
            }
        }
        if found {
            reqs.set(i, (layer_name, target_frequency));
        } else {
            reqs.push((layer_name, target_frequency));
        }
        self.frequency_requests = reqs;
    }

    pub fn set_always_on_top(&mut self, always_on_top: bool)
        ensures
            final(self)@ == (SettingsModel {
                commands: old(self)@.commands.insert(
                    2,
                    AppCommand::SetWindowAlwaysOnTop(always_on_top),
                ),
                ..old(self)@
            }),
    {
        self.insert_cmd(AppCommand::SetWindowAlwaysOnTop(always_on_top));
    }

    pub fn set_cursor_grab(&mut self, grab: bool)
        ensures
            final(self)@ == (SettingsModel {
                commands: old(self)@.commands.insert(3, AppCommand::SetWindowCursorGrab(grab)),
                ..old(self)@
            }),
    {
        self.insert_cmd(AppCommand::SetWindowCursorGrab(grab));
    }

    pub fn set_fullscreen(&mut self, fullscreen: bool)
        ensures
            final(self)@ == (SettingsModel {
                commands: old(self)@.commands.insert(
                    4,
                    AppCommand::SetWindowFullScreen(fullscreen),
                ),
                ..old(self)@
            }),
    {
        self.insert_cmd(AppCommand::SetWindowFullScreen(fullscreen));
    }

    pub fn set_inner_size(&mut self, size: (u32, u32))
        ensures
            final(self)@ == (SettingsModel {
                commands: old(self)@.commands.insert(5, AppCommand::SetWindowInnerSize(size)),
                ..old(self)@
            }),
    {
        self.insert_cmd(AppCommand::SetWindowInnerSize(size));
    }

    pub fn set_max_inner_sie(&mut self, max_size: (u32, u32))
        ensures
            final(self)@ == (SettingsModel {
                commands: old(self)@.commands.insert(
                    6,
                    AppCommand::SetWindowMaxInnerSize(max_size),
                ),
                ..old(self)@
            }),
    {
        self.insert_cmd(AppCommand::SetWindowMaxInnerSize(max_size));
    }

    pub fn set_maximized(&mut self, maximized: bool)
        ensures
            final(self)@ == (SettingsModel {
                commands: old(self)@.commands.insert(7, AppCommand::SetWindowMaximized(maximized)),
                ..old(self)@
            }),
    {
        self.insert_cmd(AppCommand::SetWindowMaximized(maximized));
    }

    pub fn set_min_inner_size(&mut self, min_size: (u32, u32))
        ensures
            final(self)@ == (SettingsModel {
                commands: old(self)@.commands.insert(
                    8,
                    AppCommand::SetWindowMinInnerSize(min_size),
                ),
                ..old(self)@
            }),
    {
        self.insert_cmd(AppCommand::SetWindowMinInnerSize(min_size));
    }

    pub fn set_minimized(&mut self, minimized: bool)
        ensures
            final(self)@ == (SettingsModel {
                commands: old(self)@.commands.insert(9, AppCommand::SetWindowMinimized(minimized)),
                ..old(self)@
            }),
    {
        self.insert_cmd(AppCommand::SetWindowMinimized(minimized));
    }

    pub fn set_outer_position(&mut self, position: (i32, i32))
        ensures
            final(self)@ == (SettingsModel {
                commands: old(self)@.commands.insert(
                    10,
                    AppCommand::SetWindowOuterPosition(position),
                ),
                ..old(self)@
            }),
    {
        self.insert_cmd(AppCommand::SetWindowOuterPosition(position));
    }

    pub fn set_resizable(&mut self, resizable: bool)
        ensures
            final(self)@ == (SettingsModel {
                commands: old(self)@.commands.insert(
                    11,
                    AppCommand::SetWindowResizable(resizable),
                ),
                ..old(self)@
            }),
    {
        self.insert_cmd(AppCommand::SetWindowResizable(resizable));
    }

    pub fn set_title(&mut self, title: String)
        ensures
            final(self)@ == (SettingsModel {
                commands: old(self)@.commands.insert(12, AppCommand::SetWindowTitle(title)),
                ..old(self)@
            }),
    {
        self.insert_cmd(AppCommand::SetWindowTitle(title));
    }

    pub fn set_visible(&mut self, visible: bool)
        ensures
            final(self)@ == (SettingsModel {
                commands: old(self)@.commands.insert(13, AppCommand::SetWindowVisible(visible)),
                ..old(self)@
            }),
    {
        self.insert_cmd(AppCommand::SetWindowVisible(visible));
    }

    /// Files `cmd` under its kind, replacing a pending command of that kind.
    fn insert_cmd(&mut self, cmd: AppCommand)
        requires
            command_kind(cmd) != 0,
        ensures
            final(self)@ == (SettingsModel {
                commands: old(self)@.commands.insert(command_kind(cmd), cmd),
                ..old(self)@
            }),
    {
        proof {
            use_type_invariant(&*self);
        }
        let k = cmd.kind();
        let ghost c = cmd;
        let mut commands: Table<AppCommand> = Table::new();
        std::mem::swap(&mut commands, &mut self.commands);
        commands.set(k, cmd);
        assert(commands_by_kind(commands@)) by {
            assert forall|j: u32| #[trigger] commands@.dom().contains(j) implies command_kind(
                commands@[j],
            ) == j by {
                if j != k {
                    assert(old(self)@.commands.dom().contains(j));
                }
            }
        }
        self.commands = commands;
    }

    /// The position of the first layer named `layer_name`, if any.
    fn get_l2f(&self, layer_name: &str) -> (r: Option<usize>)
        ensures
            r matches Some(i) ==> first_layer_named(self@.layers, layer_name@, i as int),
            r is None ==> !has_layer_named(self@.layers, layer_name@),
    {
        let key = layer_name.to_owned();
        let mut i: usize = 0;
        while i < self.layer_to_frequency_current.len()
            invariant
                key@ == layer_name@,
                i <= self@.layers.len(),
                forall|j: int| 0 <= j < i ==> self@.layers[j].0@ != layer_name@,
            decreases self@.layers.len() - i,
        {
            if self.layer_to_frequency_current[i].0 == key {
                return Some(i);
            }
            i = i + 1;
        }
        None
    }
}

/// Commands share a kind exactly when they are requests of the same sort:
/// a pending request is replaced only by another of its sort, and the
/// layer-frequency requests, which are kept apart, are the only kind 0.
pub proof fn lemma_kinds_tell_sorts_apart(a: AppCommand, b: AppCommand)
    ensures
        command_kind(a) == command_kind(b) ==> (a is SetUpdateLayerFrequency <==> b is SetUpdateLayerFrequency),
        command_kind(a) == command_kind(b) ==> (a is SetRenderFramerate <==> b is SetRenderFramerate),
        command_kind(a) == command_kind(b) ==> (a is SetWindowAlwaysOnTop <==> b is SetWindowAlwaysOnTop),
        command_kind(a) == command_kind(b) ==> (a is SetWindowCursorGrab <==> b is SetWindowCursorGrab),
        command_kind(a) == command_kind(b) ==> (a is SetWindowFullScreen <==> b is SetWindowFullScreen),
        command_kind(a) == command_kind(b) ==> (a is SetWindowInnerSize <==> b is SetWindowInnerSize),
        command_kind(a) == command_kind(b) ==> (a is SetWindowMaxInnerSize <==> b is SetWindowMaxInnerSize),
        command_kind(a) == command_kind(b) ==> (a is SetWindowMaximized <==> b is SetWindowMaximized),
        command_kind(a) == command_kind(b) ==> (a is SetWindowMinInnerSize <==> b is SetWindowMinInnerSize),
        command_kind(a) == command_kind(b) ==> (a is SetWindowMinimized <==> b is SetWindowMinimized),
        command_kind(a) == command_kind(b) ==> (a is SetWindowOuterPosition <==> b is SetWindowOuterPosition),
        command_kind(a) == command_kind(b) ==> (a is SetWindowResizable <==> b is SetWindowResizable),
        command_kind(a) == command_kind(b) ==> (a is SetWindowTitle <==> b is SetWindowTitle),
        command_kind(a) == command_kind(b) ==> (a is SetWindowVisible <==> b is SetWindowVisible),
        command_kind(a) == 0 <==> a is SetUpdateLayerFrequency,
        command_kind(a) < 14,
{
}

} // verus!
