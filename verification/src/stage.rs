//! Applications made of named stages, each running its systems at its own
//! rate. Stages are either busy (running) or spare (kept aside).
//!
//! The systems of a stage are held by the caller; the stage here is its
//! name and its clock.
use vstd::prelude::*;

use crate::app::{clock_model, layer_step, Timer};
use crate::clock::{elapsed, max_nanos, Instant};
use crate::misc::time::target_delta_nanos;

verus! {

/// A stage being declared: its name and the rate its systems run at.
#[derive(Debug)]
pub struct AppStageBuilder {
    name: String,
    frequency: u32,
}

impl View for AppStageBuilder {
    type V = (Seq<char>, u32);

    closed spec fn view(&self) -> (Seq<char>, u32) {
        (self.name@, self.frequency)
    }
}

impl AppStageBuilder {
    pub fn new(name: String, frequency: u32) -> (b: AppStageBuilder)
        ensures
            b@ == (name@, frequency),
    {
        AppStageBuilder { name, frequency }
    }

    pub fn name(&self) -> (n: &str)
        ensures
            n@ == self@.0,
    {
        self.name.as_str()
    }

    pub fn frequency(&self) -> (f: u32)
        ensures
            f == self@.1,
    {
        self.frequency
    }

    /// The stage, its clock started at `now`.
    pub fn build(self, now: Instant) -> (stage: AppStage)
        ensures
            stage@.0 == self@.0,
            stage@.1.target_ticks == self@.1,
            stage@.1.target_delta@ == target_delta_nanos(self@.1),
            stage@.1.last_tick == now,
            stage@.1.accumulated_delta@ == 0,
            !stage@.1.has_ticked,
    {
        AppStage { name: self.name, timer: Timer::new(self.frequency, now) }
    }
}

/// Why an application could not be declared.
#[derive(Debug)]
pub enum AppBuildError {
    /// A stage of that name is declared already; the rejected builder is
    /// handed back.
    DuplicateName(AppStageBuilder),
}

/// Whether a stage named `name` is among the declarations `decls`.
pub open spec fn declares(decls: Seq<(Seq<char>, u32)>, name: Seq<char>) -> bool {
    exists|i: int| 0 <= i < decls.len() && #[trigger] decls[i].0 == name
}

/// No two of the declarations `decls` share a name.
pub open spec fn distinct_names(decls: Seq<(Seq<char>, u32)>) -> bool {
    forall|i: int, j: int| 0 <= i < j < decls.len() ==> #[trigger] decls[i].0 != #[trigger] decls[j].0
}

/// Declaring a stage whose name is new keeps the names distinct.
pub proof fn lemma_new_name_keeps_names_distinct(
    decls: Seq<(Seq<char>, u32)>,
    decl: (Seq<char>, u32),
)
    requires
        distinct_names(decls),
        !declares(decls, decl.0),
    ensures
        distinct_names(decls.push(decl)),
{
    let d = decls.push(decl);
    assert forall|i: int, j: int| 0 <= i < j < d.len() implies #[trigger] d[i].0 != #[trigger] d[j].0 by {
        if j == decls.len() {
            assert(d[i] == decls[i]);
        } else {
            assert(d[i] == decls[i] && d[j] == decls[j]);
        }
    }
}

/// Collects the stages of an application; no two share a name.
#[derive(Debug)]
pub struct AppBuilder {
    stage_builders: Vec<AppStageBuilder>,
}

impl View for AppBuilder {
    type V = Seq<(Seq<char>, u32)>;

    closed spec fn view(&self) -> Seq<(Seq<char>, u32)> {
        self.stage_builders@.map_values(|b: AppStageBuilder| b@)
    }
}

impl AppBuilder {
    #[verifier::type_invariant]
    spec fn names_unique(self) -> bool {
        distinct_names(self@)
    }

    /// The declared stages, by name and frequency; no two share a name.
    pub fn stage_builders(&self) -> (d: &Vec<AppStageBuilder>)
        ensures
            d@.map_values(|b: AppStageBuilder| b@) == self@,
            distinct_names(self@),
    {
        proof {
            use_type_invariant(self);
        }
        &self.stage_builders
    }

    /// No stage declared.
    pub fn new() -> (b: AppBuilder)
        ensures
            b@ == Seq::<(Seq<char>, u32)>::empty(),
    {
        let b = AppBuilder { stage_builders: Vec::new() };
        assert(b@ =~= Seq::<(Seq<char>, u32)>::empty());
        b
    }

    /// Declares the stage `stage_builder`, unless one of its name is
    /// declared already.
    pub fn add_stage_builder(self, stage_builder: AppStageBuilder) -> (r: Result<AppBuilder, AppBuildError>)
        ensures
            r is Ok <==> !declares(self@, stage_builder@.0),
            r matches Ok(b) ==> b@ == self@.push(stage_builder@),
            r matches Err(AppBuildError::DuplicateName(rejected)) ==> rejected@ == stage_builder@,
    {
        if self.has_stage(stage_builder.name()) {
            Err(AppBuildError::DuplicateName(stage_builder))
        } else {
            proof {
                use_type_invariant(&self);
                lemma_new_name_keeps_names_distinct(self@, stage_builder@);
            }
            let ghost decls = self@;
            let mut builders = self.stage_builders;
            let ghost before = builders@;
            builders.push(stage_builder);
            proof {
                assert(builders@.map_values(|b: AppStageBuilder| b@) =~= decls.push(stage_builder@))
                    by {
                    assert(builders@ == before.push(stage_builder));
                }
            }
            Ok(AppBuilder { stage_builders: builders })
        }
    }

    /// A new stage builder named `stage_name` running at `frequency`,
    /// unless a stage of that name is declared already.
    pub fn create_stage_builder(&self, stage_name: String, frequency: u32) -> (r: Result<
        AppStageBuilder,
        AppBuildError,
    >)
        ensures
            r is Ok <==> !declares(self@, stage_name@),
            r matches Ok(b) ==> b@ == (stage_name@, frequency),
            r matches Err(AppBuildError::DuplicateName(rejected)) ==> rejected@ == (
                stage_name@,
                frequency,
            ),
    {
        let stage_builder = AppStageBuilder::new(stage_name, frequency);
        if self.has_stage(stage_builder.name()) {
            Err(AppBuildError::DuplicateName(stage_builder))
        } else {
            Ok(stage_builder)
        }
    }

    /// Whether a stage named `stage_name` is declared.
    fn has_stage(&self, stage_name: &str) -> (b: bool)
        ensures
            b == declares(self@, stage_name@),
    {
        let key = stage_name.to_owned();
        let mut i: usize = 0;
        while i < self.stage_builders.len()
            invariant
                key@ == stage_name@,
                i <= self.stage_builders@.len(),
                forall|j: int| 0 <= j < i ==> self@[j].0 != stage_name@,
            decreases self.stage_builders@.len() - i,
        {
            if self.stage_builders[i].name == key {
                assert(self@[i as int].0 == stage_name@);
                return true;
            }
            i = i + 1;
        }
        false
    }

    /// The application: every declared stage busy, in declaration order,
    /// their clocks started at `now`.
    pub fn build(self, now: Instant) -> (app: App)
        ensures
            app@.busy.len() == self@.len(),
            forall|k: int|
                0 <= k < self@.len() ==> {
                    let s = #[trigger] app@.busy[k];
                    &&& s.0 == self@[k].0
                    &&& s.1.target_ticks == self@[k].1
                    &&& s.1.target_delta@ == target_delta_nanos(self@[k].1)
                    &&& s.1.last_tick == now
                    &&& s.1.accumulated_delta@ == 0
                    &&& !s.1.has_ticked
                },
            app@.spare.len() == 0,
            forall|i: int, j: int|
                0 <= i < j < app@.busy.len() ==> #[trigger] app@.busy[i].0 != #[trigger] app@.busy[j].0,
    {
        proof {
            use_type_invariant(&self);
        }
        let ghost decls = self@;
        let mut builders = self.stage_builders;
        let n = builders.len();
        let mut stages: Vec<AppStage> = Vec::new();
        let mut i: usize = 0;
        while i < n
            invariant
                n == decls.len(),
                i <= n,
                builders@.len() == n - i,
                forall|j: int| 0 <= j < builders@.len() ==> #[trigger] builders@[j]@ == decls[i + j],
                stages@.len() == i,
                forall|k: int|
                    0 <= k < i ==> {
                        let s = #[trigger] stages@[k]@;
                        &&& s.0 == decls[k].0
                        &&& s.1.target_ticks == decls[k].1
                        &&& s.1.target_delta@ == target_delta_nanos(decls[k].1)
                        &&& s.1.last_tick == now
                        &&& s.1.accumulated_delta@ == 0
                        &&& !s.1.has_ticked
                    },
            decreases n - i,
        {
            let b = builders.remove(0);
            proof {
                assert(b@ == decls[i as int]);
            }
            stages.push(b.build(now));
            i = i + 1;
        }
        let ghost st = stages@;
        let app = App::from_stages(stages);
        proof {
            assert forall|i: int, j: int| 0 <= i < j < app@.busy.len() implies #[trigger] app@.busy[i].0
                != #[trigger] app@.busy[j].0 by {
                assert(st[i]@.0 == decls[i].0);
                assert(st[j]@.0 == decls[j].0);
            }
        }
        app
    }
}

/// A stage: its name and its clock.
#[derive(Debug)]
pub struct AppStage {
    name: String,
    timer: Timer,
}

impl View for AppStage {
    type V = (Seq<char>, Timer);

    closed spec fn view(&self) -> (Seq<char>, Timer) {
        (self.name@, self.timer)
    }
}

impl AppStage {
    pub fn name(&self) -> (n: &str)
        ensures
            n@ == self@.0,
    {
        self.name.as_str()
    }

    /// The rate the stage's systems run at.
    pub fn frequency(&self) -> (f: u32)
        ensures
            f == self@.1.target_ticks,
    {
        self.timer.target_ticks
    }

    /// Makes the stage run at `frequency`: its clock counts the interval of
    /// that rate from now on, keeping the time it accumulated.
    pub fn set_frequency(&mut self, frequency: u32)
        ensures
            final(self)@.0 == old(self)@.0,
            final(self)@.1.target_ticks == frequency,
            final(self)@.1.target_delta@ == target_delta_nanos(frequency),
            final(self)@.1.last_tick == old(self)@.1.last_tick,
            final(self)@.1.accumulated_delta == old(self)@.1.accumulated_delta,
            final(self)@.1.has_ticked == old(self)@.1.has_ticked,
    {
        self.timer.set_ticks_per_second(frequency);
    }

    /// The stage's clock.
    pub fn timer(&self) -> (t: Timer)
        ensures
            t == self@.1,
    {
        self.timer
    }

    /// Advances the stage's clock to `now` and says whether its systems are
    /// due to run.
    pub fn play(&mut self, now: Instant) -> (due: bool)
        requires
            old(self)@.1.accumulated_delta@ + elapsed(old(self)@.1.last_tick@, now@) <= max_nanos(),
        ensures
            final(self)@.0 == old(self)@.0,
            ({
                let o = old(self)@.1;
                let t = final(self)@.1;
                let acc = o.accumulated_delta@ + elapsed(o.last_tick@, now@);
                &&& t.target_ticks == o.target_ticks
                &&& t.target_delta == o.target_delta
                &&& t.last_tick == now
                &&& due == (acc >= o.target_delta@)
                &&& t.accumulated_delta@ == if due {
                    acc - o.target_delta@
                } else {
                    acc as int
                }
                &&& t.has_ticked == due
            }),
            layer_step(clock_model(old(self)@.1), now@) == (clock_model(final(self)@.1), due),
    {
        self.timer.update(now);
        self.timer.tick()
    }
}

/// The stages of an application, busy and spare, by name and clock.
pub struct StagesModel {
    pub busy: Seq<(Seq<char>, Timer)>,
    pub spare: Seq<(Seq<char>, Timer)>,
}

/// The first stage named `name` among `stages` is at position `i`.
pub open spec fn first_stage_named(stages: Seq<(Seq<char>, Timer)>, name: Seq<char>, i: int) -> bool {
    &&& 0 <= i < stages.len()
    &&& stages[i].0 == name
    &&& forall|j: int| 0 <= j < i ==> stages[j].0 != name
}

/// Whether a stage named `name` is among `stages`.
pub open spec fn has_stage_named(stages: Seq<(Seq<char>, Timer)>, name: Seq<char>) -> bool {
    exists|i: int| 0 <= i < stages.len() && #[trigger] stages[i].0 == name
}

/// An application: the stages that run and those kept aside.
#[derive(Debug)]
pub struct App {
    busy_stages: Vec<AppStage>,
    spare_stages: Vec<AppStage>,
}

impl View for App {
    type V = StagesModel;

    closed spec fn view(&self) -> StagesModel {
        StagesModel {
            busy: self.busy_stages@.map_values(|s: AppStage| s@),
            spare: self.spare_stages@.map_values(|s: AppStage| s@),
        }
    }
}

/// Replacing one stage replaces its view.
proof fn lemma_update_views(v: Seq<AppStage>, i: int)
    requires
        0 <= i < v.len(),
    ensures
        forall|x: AppStage|
            #![trigger v.update(i, x)]
            v.update(i, x).map_values(|s: AppStage| s@) == v.map_values(
                |s: AppStage| s@,
            ).update(i, x@),
{
    assert forall|x: AppStage|
        #![trigger v.update(i, x)]
        v.update(i, x).map_values(|s: AppStage| s@) == v.map_values(|s: AppStage| s@).update(
            i,
            x@,
        ) by {
        assert(v.update(i, x).map_values(|s: AppStage| s@) =~= v.map_values(|s: AppStage| s@).update(
            i,
            x@,
        ));
    }
}

/// The position of the first stage named `name` in `stages`.
fn find_stage(stages: &Vec<AppStage>, name: &str) -> (r: Option<usize>)
    ensures
        r matches Some(i) ==> first_stage_named(
            stages@.map_values(|s: AppStage| s@),
            name@,
            i as int,
        ),
        r is None <==> !has_stage_named(stages@.map_values(|s: AppStage| s@), name@),
{
    let ghost v = stages@.map_values(|s: AppStage| s@);
    let key = name.to_owned();
    let mut i: usize = 0;
    while i < stages.len()
        invariant
            key@ == name@,
            v == stages@.map_values(|s: AppStage| s@),
            i <= stages@.len(),
            forall|j: int| 0 <= j < i ==> v[j].0 != name@,
        decreases stages@.len() - i,
    {
        if stages[i].name == key {
            assert(v[i as int].0 == name@);
            return Some(i);
        }
        i = i + 1;
    }
    None
}

impl App {
    /// No stage.
    pub fn new() -> (app: App)
        ensures
            app@.busy.len() == 0,
            app@.spare.len() == 0,
    {
        App { busy_stages: Vec::new(), spare_stages: Vec::new() }
    }

    /// The stages `stages`, all busy.
    pub fn from_stages(stages: Vec<AppStage>) -> (app: App)
        ensures
            app@.busy == stages@.map_values(|s: AppStage| s@),
            app@.spare.len() == 0,
    {
        App { busy_stages: stages, spare_stages: Vec::new() }
    }

    /// The first busy stage named `stage_name`, if any.
    pub fn busy_stage(&self, stage_name: &str) -> (r: Option<&AppStage>)
        ensures
            r is None <==> !has_stage_named(self@.busy, stage_name@),
            r matches Some(s) ==> exists|i: int|
                first_stage_named(self@.busy, stage_name@, i) && s@ == self@.busy[i],
    {
        match find_stage(&self.busy_stages, stage_name) {
            Some(i) => {
                assert(self.busy_stages@[i as int]@ == self@.busy[i as int]);
                Some(&self.busy_stages[i])
            },
            None => None,
        }
    }

    /// The busy stages, in running order.
    pub fn busy_stage_iter(&self) -> (stages: &Vec<AppStage>)
        ensures
            stages@.map_values(|s: AppStage| s@) == self@.busy,
    {
        &self.busy_stages
    }

    /// The first spare stage named `stage_name`, if any.
    pub fn spare_stage(&self, stage_name: &str) -> (r: Option<&AppStage>)
        ensures
            r is None <==> !has_stage_named(self@.spare, stage_name@),
            r matches Some(s) ==> exists|i: int|
                first_stage_named(self@.spare, stage_name@, i) && s@ == self@.spare[i],
    {
        match find_stage(&self.spare_stages, stage_name) {
            Some(i) => {
                assert(self.spare_stages@[i as int]@ == self@.spare[i as int]);
                Some(&self.spare_stages[i])
            },
            None => None,
        }
    }

    /// The spare stages.
    pub fn spare_stage_iter(&self) -> (stages: &Vec<AppStage>)
        ensures
            stages@.map_values(|s: AppStage| s@) == self@.spare,
    {
        &self.spare_stages
    }

    /// The first spare stage named `stage_name`, if any, to change in place.
    pub fn spare_stage_mut(&mut self, stage_name: &str) -> (r: Option<&mut AppStage>)
        ensures
            r is None <==> !has_stage_named(old(self)@.spare, stage_name@),
            r is None ==> final(self)@ == old(self)@,
            r matches Some(s) ==> exists|i: int|
                first_stage_named(old(self)@.spare, stage_name@, i) && (*s)@ == old(self)@.spare[i]
                    && final(self)@.busy == old(self)@.busy && final(self)@.spare == old(
                    self,
                )@.spare.update(i, (*final(s))@),
    {
        match find_stage(&self.spare_stages, stage_name) {
            Some(i) => {
                proof {
                    lemma_update_views(self.spare_stages@, i as int);
                }
                let stage = &mut self.spare_stages[i];
                proof {
                    assert(first_stage_named(old(self)@.spare, stage_name@, i as int));
                }
                Some(stage)
            },
            None => None,
        }
    }

    /// The spare stages, to change in place.
    pub fn spare_stage_iter_mut(&mut self) -> (stages: &mut Vec<AppStage>)
        ensures
            (*stages)@.map_values(|s: AppStage| s@) == old(self)@.spare,
            final(self)@.busy == old(self)@.busy,
            final(self)@.spare == (*final(stages))@.map_values(|s: AppStage| s@),
    {
        &mut self.spare_stages
    }

    /// Whether a spare stage is named `stage_name`.
    pub fn is_stage_spare(&self, stage_name: &str) -> (b: bool)
        ensures
            b == has_stage_named(self@.spare, stage_name@),
    {
        find_stage(&self.spare_stages, stage_name).is_some()
    }

    /// Takes the first spare stage named `stage_name` out of the spare
    /// stages, if there is one.
    pub fn take_spare_stage(&mut self, stage_name: &str) -> (r: Option<AppStage>)
        ensures
            final(self)@.busy == old(self)@.busy,
            r is None <==> !has_stage_named(old(self)@.spare, stage_name@),
            r is None ==> final(self)@.spare == old(self)@.spare,
            r matches Some(s) ==> exists|i: int|
                first_stage_named(old(self)@.spare, stage_name@, i) && s@ == old(self)@.spare[i]
                    && final(self)@.spare == old(self)@.spare.remove(i),
    {
        match find_stage(&self.spare_stages, stage_name) {
            Some(i) => {
                let stage = self.spare_stages.remove(i);
                proof {
                    assert(self@.spare =~= old(self)@.spare.remove(i as int));
                }
                Some(stage)
            },
            None => None,
        }
    }

    /// Whether a busy stage is named `stage_name`.
    pub fn is_stage_busy(&self, stage_name: &str) -> (b: bool)
        ensures
            b == has_stage_named(self@.busy, stage_name@),
    {
        find_stage(&self.busy_stages, stage_name).is_some()
    }

    /// Advances the clock of busy stage `i` to `now` and says whether its
    /// systems are due to run.
    pub fn play_stage(&mut self, i: usize, now: Instant) -> (due: bool)
        requires
            i < old(self)@.busy.len(),
            old(self)@.busy[i as int].1.accumulated_delta@ + elapsed(
                old(self)@.busy[i as int].1.last_tick@,
                now@,
            ) <= max_nanos(),
        ensures
            final(self)@.spare == old(self)@.spare,
            final(self)@.busy.len() == old(self)@.busy.len(),
            forall|j: int|
                0 <= j < old(self)@.busy.len() && j != i ==> final(self)@.busy[j] == old(self)@.busy[j],
            final(self)@.busy[i as int].0 == old(self)@.busy[i as int].0,
            ({
                let o = old(self)@.busy[i as int].1;
                let t = final(self)@.busy[i as int].1;
                let acc = o.accumulated_delta@ + elapsed(o.last_tick@, now@);
                &&& t.target_ticks == o.target_ticks
                &&& t.target_delta == o.target_delta
                &&& t.last_tick == now
                &&& due == (acc >= o.target_delta@)
                &&& t.accumulated_delta@ == if due {
                    acc - o.target_delta@
                } else {
                    acc as int
                }
                &&& t.has_ticked == due
            }),
            layer_step(clock_model(old(self)@.busy[i as int].1), now@) == (
                clock_model(final(self)@.busy[i as int].1),
                due,
            ),
    {
        let mut stage = self.busy_stages.remove(i);
        let due = stage.play(now);
        self.busy_stages.insert(i, stage);
        proof {
            assert forall|j: int|
                0 <= j < old(self)@.busy.len() && j != i implies #[trigger] self@.busy[j]
                == old(self)@.busy[j] by {}
        }
        due
    }
}

/// Why a change to the stages of a running application failed.
#[derive(Debug)]
pub enum AppRunError {
    DuplicateNameInBusy(AppStage),
    DuplicateNameInSpare(AppStage),
    StageNotExist(String),
    StageNotExistInBusy(String),
    StageNotExistInSpare(String),
}

/// A change requested of a running application.
#[derive(Debug)]
pub enum AppCommand {
    PushStageToWorkBefore { stage: AppStage, after_stage_name: String },
    PushStageToWork { stage: AppStage },
    PushStageToWorkAfter { stage: AppStage, before_stage_name: String },
    MakeBusyStageToRest { stage_name: String },
    SetBusyStageFrequency { stage_name: String, frequency: u32 },
    AppQuit,
}

/// What systems see of the application: the queue of requested changes.
#[derive(Debug)]
pub struct AppSettings {
    commands: Vec<AppCommand>,
}

impl View for AppSettings {
    type V = Seq<AppCommand>;

    closed spec fn view(&self) -> Seq<AppCommand> {
        self.commands@
    }
}

impl AppSettings {
    /// No request.
    pub fn new() -> (s: AppSettings)
        ensures
            s@ == Seq::<AppCommand>::empty(),
    {
        AppSettings { commands: Vec::new() }
    }

    /// Requests that the application stop.
    pub fn quit(&mut self)
        ensures
            final(self)@ == old(self)@.push(AppCommand::AppQuit),
    {
        self.commands.push(AppCommand::AppQuit);
    }
}

} // verus!
