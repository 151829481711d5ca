//! The remap engine: one state machine for each dual-role key.
//!
//! The engine takes every key event, genuine or synthesized, and decides
//! whether the event is kept from the rest of the system and which key
//! events are to be synthesized in its place. It sends nothing itself: a
//! [`Decision`] names the events, in order, and all state is settled
//! before the caller sends the first of them.

use crate::config::distinct_sources;
use crate::config::RemapConfig;
use crate::input::Direction;
use crate::input::Injection;
use crate::input::Role;
use crate::keys::KeyDef;
use crate::trace::blocked_record;
use crate::trace::input_record;
use crate::trace::input_trace;
use crate::trace::lemma_number_after_add;
use crate::trace::next_number;
use crate::trace::number_after;
use crate::trace::sending_record;
use crate::trace::sending_records;
use crate::trace::TraceEvent;
use crate::trace::TraceRecord;
use vstd::prelude::*;

verus! {

/// Where a dual-role key stands between its press and its release.
#[derive(Debug, Clone, Copy, PartialEq, Eq, Structural)]
pub enum State {
    /// The key is up.
    Idle,
    /// The key is down and nothing else has happened since.
    HeldDownAlone,
    /// The key is down and other input has arrived since.
    HeldDownWithOther,
}

/// A dual-role mapping together with the state of its key.
#[derive(Debug)]
pub struct Remap {
    pub config: RemapConfig,
    pub state: State,
}

impl Remap {
    /// The mapping with its key up.
    pub fn new(config: RemapConfig) -> (remap: Self)
        ensures
            remap.config == config,
            remap.state == State::Idle,
    {
        Self { config, state: State::Idle }
    }

    /// The same mapping in another state.
    pub open spec fn with_state(self, state: State) -> Remap {
        Remap { config: self.config, state }
    }

    /// The mapping after other input has arrived: a key that was held alone
    /// is from then on held with other input.
    pub open spec fn committed(self) -> Remap {
        if self.state == State::HeldDownAlone {
            self.with_state(State::HeldDownWithOther)
        } else {
            self
        }
    }

    /// The press of the other-input target.
    pub open spec fn other_down(self) -> Injection {
        Injection {
            role: Role::WithOther,
            key: self.config.to_with_other,
            direction: Direction::Down,
        }
    }

    /// The release of the other-input target.
    pub open spec fn other_up(self) -> Injection {
        Injection { role: Role::WithOther, key: self.config.to_with_other, direction: Direction::Up }
    }

    /// The press of the alone target.
    pub open spec fn alone_down(self) -> Injection {
        Injection {
            role: Role::WhenAlone,
            key: self.config.to_when_alone,
            direction: Direction::Down,
        }
    }

    /// The release of the alone target.
    pub open spec fn alone_up(self) -> Injection {
        Injection { role: Role::WhenAlone, key: self.config.to_when_alone, direction: Direction::Up }
    }

    /// What the release of the key synthesizes: the release of the
    /// other-input target where that one is down, else a tap of the alone
    /// target.
    pub open spec fn release_injections(self) -> Seq<Injection> {
        if self.state == State::HeldDownWithOther {
            seq![self.other_up()]
        } else {
            seq![self.alone_down(), self.alone_up()]
        }
    }
}

/// The mappings of `remaps`, without their states.
pub open spec fn configs_of(remaps: Seq<Remap>) -> Seq<RemapConfig> {
    Seq::new(remaps.len(), |i: int| remaps[i].config)
}

/// The mappings `configs`, each with its key up.
pub open spec fn idle_remaps(configs: Seq<RemapConfig>) -> Seq<Remap> {
    Seq::new(configs.len(), |i: int| Remap { config: configs[i], state: State::Idle })
}

/// Some mapping of `remaps` remaps the key with this virtual code.
pub open spec fn is_source(remaps: Seq<Remap>, virt_code: u32) -> bool {
    exists|i: int| 0 <= i < remaps.len() && remaps[i].config.from.virt_code == virt_code
}

/// The position in `remaps` of the mapping that remaps `virt_code`.
pub open spec fn source_index(remaps: Seq<Remap>, virt_code: u32) -> int {
    choose|i: int| 0 <= i < remaps.len() && remaps[i].config.from.virt_code == virt_code
}

/// The mappings after other input has arrived.
pub open spec fn after_other_input(remaps: Seq<Remap>) -> Seq<Remap> {
    Seq::new(remaps.len(), |i: int| remaps[i].committed())
}

/// What other input synthesizes: the press of the other-input target of
/// every key that was held alone, in the order of the mappings.
pub open spec fn other_input_injections(remaps: Seq<Remap>) -> Seq<Injection>
    decreases remaps.len(),
{
    if remaps.len() == 0 {
        Seq::empty()
    } else {
        let before = other_input_injections(remaps.drop_last());
        if remaps.last().state == State::HeldDownAlone {
            before.push(remaps.last().other_down())
        } else {
            before
        }
    }
}

/// The mappings after the press of the dual-role key at position `i`.
pub open spec fn after_down(remaps: Seq<Remap>, i: int) -> Seq<Remap> {
    if remaps[i].state == State::Idle {
        remaps.update(i, remaps[i].with_state(State::HeldDownAlone))
    } else {
        remaps
    }
}

/// The mappings after the release of the dual-role key at position `i`.
pub open spec fn after_up(remaps: Seq<Remap>, i: int) -> Seq<Remap> {
    remaps.update(i, remaps[i].with_state(State::Idle))
}

/// Whether an event is the press or release of a dual-role key: it is not
/// synthesized, and its virtual code is that of a remapped key.
pub open spec fn is_remapped_key_event(remaps: Seq<Remap>, virt_code: u32, is_injected: bool) -> bool {
    !is_injected && is_source(remaps, virt_code)
}

/// Whether an event is kept from the rest of the system.
pub open spec fn blocks(remaps: Seq<Remap>, virt_code: u32, is_injected: bool) -> bool {
    is_remapped_key_event(remaps, virt_code, is_injected)
}

/// The mappings after an event.
pub open spec fn next_remaps(
    remaps: Seq<Remap>,
    virt_code: u32,
    direction: Direction,
    is_injected: bool,
) -> Seq<Remap> {
    if is_remapped_key_event(remaps, virt_code, is_injected) {
        match direction {
            Direction::Down => after_down(remaps, source_index(remaps, virt_code)),
            Direction::Up => after_up(remaps, source_index(remaps, virt_code)),
        }
    } else {
        after_other_input(remaps)
    }
}

/// The key events that an event has synthesized, in order.
pub open spec fn injections_for(
    remaps: Seq<Remap>,
    virt_code: u32,
    direction: Direction,
    is_injected: bool,
) -> Seq<Injection> {
    if is_remapped_key_event(remaps, virt_code, is_injected) {
        match direction {
            Direction::Down => Seq::empty(),
            Direction::Up => remaps[source_index(remaps, virt_code)].release_injections(),
        }
    } else {
        other_input_injections(remaps)
    }
}

/// Puts the mapping at position `i` of `remaps` into `state`.
fn put_state(remaps: &mut Vec<Remap>, i: usize, state: State)
    requires
        i < old(remaps)@.len(),
    ensures
        final(remaps)@ == old(remaps)@.update(i as int, old(remaps)@[i as int].with_state(state)),
    no_unwind
{
    remaps[i].state = state;
}

/// What the engine decided about one event.
#[derive(Debug, Clone, PartialEq, Eq)]
pub struct Decision {
    /// Whether the event is to be kept from the rest of the system.
    pub block: bool,
    /// The key events to synthesize, in this order.
    pub injections: Vec<Injection>,
    /// The diagnostic records of the event; none unless diagnostics are on.
    pub trace: Vec<TraceRecord>,
}

/// The engine: the dual-role mappings in the order in which they were
/// declared, each with the state of its key, and the numbering of the
/// diagnostic records.
pub struct RemapManager {
    remaps: Vec<Remap>,
    debug: bool,
    log_counter: u32,
}

impl View for RemapManager {
    type V = Seq<Remap>;

    /// The mappings with their states, in the order of their declaration.
    closed spec fn view(&self) -> Seq<Remap> {
        self.remaps@
    }
}

impl RemapManager {
    /// No two mappings of the engine remap the same key.
    #[verifier::type_invariant]
    spec fn well_formed(self) -> bool {
        distinct_sources(configs_of(self.remaps@))
    }

    /// Whether diagnostics are on.
    pub closed spec fn debug_on(&self) -> bool {
        self.debug
    }

    /// The number that the next diagnostic record gets.
    pub closed spec fn next_number(&self) -> u32 {
        self.log_counter
    }

    /// The records that `injections` leave, numbered from `counter` on, if
    /// diagnostics are on.
    pub open spec fn sendings(debug: bool, counter: u32, injections: Seq<Injection>) -> Seq<
        TraceRecord,
    > {
        if debug {
            sending_records(counter, injections)
        } else {
            Seq::empty()
        }
    }

    /// The number of the next record after `records` more of them, if
    /// diagnostics are on.
    pub open spec fn counted(debug: bool, counter: u32, records: int) -> u32 {
        if debug {
            number_after(counter, records)
        } else {
            counter
        }
    }

    /// An engine for these mappings, every key up. With `debug` the engine
    /// keeps diagnostic records, numbered from one. No two mappings may
    /// remap the same key.
    pub fn new(configs: Vec<RemapConfig>, debug: bool) -> (manager: Self)
        requires
            distinct_sources(configs@),
        ensures
            manager@ == idle_remaps(configs@),
            configs_of(manager@) == configs@,
            manager.debug_on() == debug,
            manager.next_number() == 1,
    {
        let mut remaps: Vec<Remap> = Vec::new();
        for config in it: configs
            invariant
                it.seq() == configs@,
                remaps@ == idle_remaps(configs@.take(it.index())),
        {
            remaps.push(Remap::new(config));
            assert(remaps@ =~= idle_remaps(configs@.take(it.index() + 1)));
        }
        assert(configs@.take(configs@.len() as int) =~= configs@);
        assert(configs_of(remaps@) =~= configs@);
        Self { remaps, debug, log_counter: 1 }
    }

    /// Whether the engine keeps diagnostic records.
    pub fn is_debug(&self) -> (debug: bool)
        ensures
            debug == self.debug_on(),
    {
        self.debug
    }

    /// Takes one key event and says whether it is blocked and what is to be
    /// synthesized for it. A synthesized event counts as other input and is
    /// never blocked; the press or release of a dual-role key is always
    /// blocked; any other event counts as other input and passes.
    pub fn handle_input(
        &mut self,
        scan_code: u32,
        virt_code: u32,
        direction: Direction,
        is_injected: bool,
    ) -> (decision: Decision)
        ensures
            decision.block == blocks(old(self)@, virt_code, is_injected),
            decision.injections@ == injections_for(old(self)@, virt_code, direction, is_injected),
            final(self)@ == next_remaps(old(self)@, virt_code, direction, is_injected),
            configs_of(final(self)@) == configs_of(old(self)@),
            distinct_sources(configs_of(final(self)@)),
            final(self).debug_on() == old(self).debug_on(),
            decision.trace@ == if old(self).debug_on() {
                input_trace(
                    old(self).next_number(),
                    scan_code,
                    virt_code,
                    direction,
                    is_injected,
                    decision.injections@,
                    decision.block,
                )
            } else {
                Seq::empty()
            },
            final(self).next_number() == Self::counted(
                old(self).debug_on(),
                old(self).next_number(),
                decision.trace@.len() as int,
            ),
    {
        let ghost start = self.log_counter;
        proof {
            use_type_invariant(&*self);
        }
        let mut injections: Vec<Injection> = Vec::new();
        let mut trace: Vec<TraceRecord> = Vec::new();
        self.log_handle_input_start(&mut trace, scan_code, virt_code, direction, is_injected);
        let ghost entry = trace@;

        let block_input = if is_injected {
            self.event_other_input(&mut injections, &mut trace)
        } else if self.position(virt_code).is_some() {
            match direction {
                Direction::Down => self.handle_remapped_key_down(virt_code),
                Direction::Up => self.handle_remapped_key_up(
                    virt_code,
                    &mut injections,
                    &mut trace,
                ),
            }
        } else {
            self.event_other_input(&mut injections, &mut trace)
        };
        assert(injections@ =~= injections_for(old(self)@, virt_code, direction, is_injected));
        let ghost sent = trace@;

        self.log_handle_input_end(&mut trace, scan_code, virt_code, direction, is_injected, block_input);
        proof {
            use_type_invariant(&*self);
            assert(configs_of(self@) =~= configs_of(old(self)@));
            let n = injections@.len() as int;
            lemma_number_after_add(start, 1, n);
            lemma_number_after_add(start, 1 + n, 1);
            if self.debug {
                assert(entry =~= seq![
                    input_record(start, scan_code, virt_code, direction, is_injected),
                ]);
                assert(sent =~= entry + sending_records(number_after(start, 1), injections@));
                assert(trace@ =~= input_trace(
                    start,
                    scan_code,
                    virt_code,
                    direction,
                    is_injected,
                    injections@,
                    block_input,
                ));
            } else {
                assert(trace@ =~= Seq::<TraceRecord>::empty());
            }
        }
        Decision { block: block_input, injections, trace }
    }

    /// Finds the mapping that remaps the key with this virtual code.
    fn position(&self, virt_code: u32) -> (found: Option<usize>)
        ensures
            found is Some <==> is_source(self@, virt_code),
            found matches Some(i) ==> i == source_index(self@, virt_code) && i < self@.len(),
    {
        proof {
            use_type_invariant(self);
        }
        let mut i: usize = 0;
        while i < self.remaps.len()
            invariant
                i <= self.remaps.len(),
                forall|j: int| 0 <= j < i ==> self.remaps@[j].config.from.virt_code != virt_code,
                distinct_sources(configs_of(self.remaps@)),
            decreases self.remaps.len() - i,
        {
            if self.remaps[i].config.from.virt_code == virt_code {
                proof {
                    let k = source_index(self@, virt_code);
                    assert(configs_of(self.remaps@)[i as int].from.virt_code == virt_code);
                    assert(configs_of(self.remaps@)[k].from.virt_code == virt_code);
                }
                return Some(i);
            }
            i += 1;
        }
        None
    }

    /// Puts the mapping at position `i` into `state`.
    fn set_state(&mut self, i: usize, state: State)
        requires
            i < old(self)@.len(),
        ensures
            final(self)@ == old(self)@.update(i as int, old(self)@[i as int].with_state(state)),
            final(self).debug == old(self).debug,
            final(self).log_counter == old(self).log_counter,
    {
        proof {
            use_type_invariant(&*self);
            let after = self.remaps@.update(i as int, self.remaps@[i as int].with_state(state));
            assert(configs_of(after) =~= configs_of(self.remaps@));
        }
        put_state(&mut self.remaps, i, state);
    }

    /// The press of a dual-role key: the key is held alone from now on,
    /// unless it was down already. Nothing is synthesized yet, and the
    /// event is blocked. Where no mapping remaps the key, nothing changes.
    /// This is the step that `handle_input` takes for such an event.
    pub fn handle_remapped_key_down(&mut self, virt_code: u32) -> (block: bool)
        ensures
            block,
            configs_of(final(self)@) == configs_of(old(self)@),
            final(self)@ == if is_source(old(self)@, virt_code) {
                after_down(old(self)@, source_index(old(self)@, virt_code))
            } else {
                old(self)@
            },
            final(self).debug_on() == old(self).debug_on(),
            final(self).next_number() == old(self).next_number(),
    {
        if let Some(i) = self.position(virt_code) {
            if self.remaps[i].state == State::Idle {
                self.set_state(i, State::HeldDownAlone);
            }
        }
        assert(configs_of(self@) =~= configs_of(old(self)@));
        true
    }

    /// The release of a dual-role key: the key is up from now on, and what
    /// it stood for while it was down is added to `injections`: the release
    /// of its other-input target where other input had arrived, else the
    /// press and the release of its alone target. The event is blocked.
    /// Where no mapping remaps the key, nothing changes. This is the step
    /// that `handle_input` takes for such an event.
    pub fn handle_remapped_key_up(
        &mut self,
        virt_code: u32,
        injections: &mut Vec<Injection>,
        trace: &mut Vec<TraceRecord>,
    ) -> (block: bool)
        ensures
            block,
            configs_of(final(self)@) == configs_of(old(self)@),
            final(self)@ == if is_source(old(self)@, virt_code) {
                after_up(old(self)@, source_index(old(self)@, virt_code))
            } else {
                old(self)@
            },
            final(injections)@ == old(injections)@ + if is_source(old(self)@, virt_code) {
                old(self)@[source_index(old(self)@, virt_code)].release_injections()
            } else {
                Seq::empty()
            },
            final(trace)@ == old(trace)@ + Self::sendings(
                old(self).debug_on(),
                old(self).next_number(),
                final(injections)@.skip(old(injections)@.len() as int),
            ),
            final(self).debug_on() == old(self).debug_on(),
            final(self).next_number() == Self::counted(
                old(self).debug_on(),
                old(self).next_number(),
                final(injections)@.len() - old(injections)@.len(),
            ),
    {
        let ghost start = self.log_counter;
        proof {
            lemma_number_after_add(start, 0, 0);
            lemma_number_after_add(start, 1, 1);
        }
        if let Some(i) = self.position(virt_code) {
            match self.remaps[i].state {
                State::HeldDownWithOther => {
                    self.set_state(i, State::Idle);
                    let key_def = self.remaps[i].config.to_with_other;
                    self.send_key_def_input(
                        injections,
                        trace,
                        Role::WithOther,
                        &key_def,
                        Direction::Up,
                    );
                    assert(injections@.skip(old(injections)@.len() as int) =~= old(
                        self,
                    )@[i as int].release_injections());
                },
                _ => {
                    self.set_state(i, State::Idle);
                    let key_def = self.remaps[i].config.to_when_alone;
                    self.send_key_def_input(
                        injections,
                        trace,
                        Role::WhenAlone,
                        &key_def,
                        Direction::Down,
                    );
                    self.send_key_def_input(
                        injections,
                        trace,
                        Role::WhenAlone,
                        &key_def,
                        Direction::Up,
                    );
                    assert(injections@.skip(old(injections)@.len() as int) =~= old(
                        self,
                    )@[i as int].release_injections());
                },
            }
            assert(injections@ =~= old(injections)@ + old(self)@[i as int].release_injections());
            assert(trace@ =~= old(trace)@ + Self::sendings(
                self.debug,
                start,
                old(self)@[i as int].release_injections(),
            ));
        } else {
            assert(injections@.skip(old(injections)@.len() as int) =~= Seq::<Injection>::empty());
            assert(injections@ =~= old(injections)@ + Seq::<Injection>::empty());
            assert(trace@ =~= old(trace)@ + Self::sendings(
                self.debug,
                start,
                Seq::<Injection>::empty(),
            ));
        }
        assert(configs_of(self@) =~= configs_of(old(self)@));
        true
    }

    /// Other input has arrived: every key that was held alone is held with
    /// other input from now on, and the press of its other-input target is
    /// added to `injections`, in the order of the mappings. The event is
    /// not blocked. This is the step that `handle_input` takes for such an
    /// event.
    pub fn event_other_input(
        &mut self,
        injections: &mut Vec<Injection>,
        trace: &mut Vec<TraceRecord>,
    ) -> (block: bool)
        ensures
            !block,
            configs_of(final(self)@) == configs_of(old(self)@),
            final(self)@ == after_other_input(old(self)@),
            final(injections)@ == old(injections)@ + other_input_injections(old(self)@),
            final(trace)@ == old(trace)@ + Self::sendings(
                old(self).debug_on(),
                old(self).next_number(),
                other_input_injections(old(self)@),
            ),
            final(self).debug_on() == old(self).debug_on(),
            final(self).next_number() == Self::counted(
                old(self).debug_on(),
                old(self).next_number(),
                other_input_injections(old(self)@).len() as int,
            ),
    {
        let ghost start = self.log_counter;
        let ghost before = self.remaps@;
        proof {
            use_type_invariant(&*self);
            lemma_number_after_add(start, 0, 0);
            assert(before.take(0) =~= Seq::<Remap>::empty());
            assert(injections@ =~= old(injections)@ + other_input_injections(before.take(0)));
            assert(trace@ =~= old(trace)@ + Self::sendings(
                self.debug,
                start,
                other_input_injections(before.take(0)),
            ));
        }
        let mut i: usize = 0;
        while i < self.remaps.len()
            invariant
                i <= before.len(),
                self.remaps@.len() == before.len(),
                before == old(self).remaps@,
                start == old(self).next_number(),
                self.debug == old(self).debug_on(),
                forall|j: int| 0 <= j < i ==> self.remaps@[j] == before[j].committed(),
                forall|j: int| i <= j < before.len() ==> self.remaps@[j] == before[j],
                injections@ == old(injections)@ + other_input_injections(before.take(i as int)),
                trace@ == old(trace)@ + Self::sendings(
                    self.debug,
                    start,
                    other_input_injections(before.take(i as int)),
                ),
                self.log_counter == Self::counted(
                    self.debug,
                    start,
                    other_input_injections(before.take(i as int)).len() as int,
                ),
            decreases before.len() - i,
        {
            let ghost done = other_input_injections(before.take(i as int));
            proof {
                assert(before.take(i + 1).drop_last() =~= before.take(i as int));
                assert(before.take(i + 1).last() == before[i as int]);
                lemma_number_after_add(start, done.len() as int, 1);
            }
            if self.remaps[i].state == State::HeldDownAlone {
                self.set_state(i, State::HeldDownWithOther);
                let key_def = self.remaps[i].config.to_with_other;
                self.send_key_def_input(
                    injections,
                    trace,
                    Role::WithOther,
                    &key_def,
                    Direction::Down,
                );
                proof {
                    let now = other_input_injections(before.take(i + 1));
                    assert(now == done.push(before[i as int].other_down()));
                    assert(injections@ =~= old(injections)@ + now);
                    assert(trace@ =~= old(trace)@ + Self::sendings(self.debug, start, now));
                }
            }
            i += 1;
        }
        assert(before.take(before.len() as int) =~= before);
        assert(self.remaps@ =~= after_other_input(before));
        assert(configs_of(self@) =~= configs_of(old(self)@));
        false
    }

    /// Asks for `key_def` to be synthesized in `direction`.
    fn send_key_def_input(
        &mut self,
        injections: &mut Vec<Injection>,
        trace: &mut Vec<TraceRecord>,
        role: Role,
        key_def: &KeyDef,
        direction: Direction,
    )
        ensures
            final(self)@ == old(self)@,
            final(self).debug == old(self).debug,
            final(injections)@ == old(injections)@.push(
                Injection { role, key: *key_def, direction },
            ),
            final(trace)@ == if old(self).debug {
                old(trace)@.push(
                    sending_record(
                        old(self).log_counter,
                        Injection { role, key: *key_def, direction },
                    ),
                )
            } else {
                old(trace)@
            },
            final(self).log_counter == Self::counted(old(self).debug, old(self).log_counter, 1),
    {
        let injection = Injection { role, key: *key_def, direction };
        self.log_send_input(trace, injection);
        injections.push(injection);
    }

    /// Takes the number of the next diagnostic record.
    fn next_record_number(&mut self) -> (number: u32)
        ensures
            number == old(self).log_counter,
            final(self).log_counter == number_after(old(self).log_counter, 1),
            final(self)@ == old(self)@,
            final(self).debug == old(self).debug,
    {
        proof {
            use_type_invariant(&*self);
        }
        let number = self.log_counter;
        self.log_counter = next_number(number);
        number
    }

    /// Records the event that enters, if diagnostics are on.
    fn log_handle_input_start(
        &mut self,
        trace: &mut Vec<TraceRecord>,
        scan_code: u32,
        virt_code: u32,
        direction: Direction,
        is_injected: bool,
    )
        ensures
            final(self)@ == old(self)@,
            final(self).debug == old(self).debug,
            final(trace)@ == if old(self).debug {
                old(trace)@.push(
                    input_record(
                        old(self).log_counter,
                        scan_code,
                        virt_code,
                        direction,
                        is_injected,
                    ),
                )
            } else {
                old(trace)@
            },
            final(self).log_counter == Self::counted(old(self).debug, old(self).log_counter, 1),
    {
        if !self.debug {
            return ;
        }
        let number = self.next_record_number();
        trace.push(
            TraceRecord {
                number,
                indent: 0,
                event: TraceEvent::Input { injected: is_injected, scan_code, virt_code, direction },
            },
        );
    }

    /// Records that the event was blocked, if it was and diagnostics are on.
    fn log_handle_input_end(
        &mut self,
        trace: &mut Vec<TraceRecord>,
        _scan_code: u32,
        virt_code: u32,
        direction: Direction,
        _is_injected: bool,
        block_input: bool,
    )
        ensures
            final(self)@ == old(self)@,
            final(self).debug == old(self).debug,
            final(trace)@ == if old(self).debug && block_input {
                old(trace)@.push(blocked_record(old(self).log_counter, virt_code, direction))
            } else {
                old(trace)@
            },
            final(self).log_counter == Self::counted(
                old(self).debug && block_input,
                old(self).log_counter,
                1,
            ),
    {
        if !self.debug {
            return ;
        }
        if block_input {
            let number = self.next_record_number();
            trace.push(
                TraceRecord { number, indent: 0, event: TraceEvent::Blocked { virt_code, direction } },
            );
        }
    }

    /// Records that a key event is synthesized, if diagnostics are on.
    fn log_send_input(&mut self, trace: &mut Vec<TraceRecord>, injection: Injection)
        ensures
            final(self)@ == old(self)@,
            final(self).debug == old(self).debug,
            final(trace)@ == if old(self).debug {
                old(trace)@.push(sending_record(old(self).log_counter, injection))
            } else {
                old(trace)@
            },
            final(self).log_counter == Self::counted(old(self).debug, old(self).log_counter, 1),
    {
        if !self.debug {
            return ;
        }
        let number = self.next_record_number();
        trace.push(TraceRecord { number, indent: 1, event: TraceEvent::Sending { injection } });
    }
}

} // verus!
