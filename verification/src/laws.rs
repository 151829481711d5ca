//! What holds of the engine whatever its mappings and their states.
//!
//! The engine is described twice: in `remap` by how an event is
//! classified, and here mapping by mapping, as what the event means to one
//! dual-role key. The two descriptions agree, and from the second it follows
//! that the keys do not interfere with each other.

use crate::config::distinct_sources;
use crate::config::has_source;
use crate::config::RemapConfig;
use crate::hook::KeyEvent;
use crate::input::Direction;
use crate::input::Injection;
use crate::input::Role;
use crate::remap::after_other_input;
use crate::remap::blocks;
use crate::remap::configs_of;
use crate::remap::injections_for;
use crate::remap::is_remapped_key_event;
use crate::remap::is_source;
use crate::remap::next_remaps;
use crate::remap::other_input_injections;
use crate::remap::source_index;
use crate::remap::Remap;
use crate::remap::State;
use vstd::prelude::*;

verus! {

/// What one event means to one dual-role key.
pub enum Stimulus {
    /// The key itself went down.
    Press,
    /// The key itself came up.
    Release,
    /// Another dual-role key went down or came up.
    OtherRemappedKey,
    /// Anything else: another key, the mouse, or a synthesized event.
    OtherInput,
}

/// What an event means to the mapping at position `j` of `configs`.
pub open spec fn stimulus_for(
    configs: Seq<RemapConfig>,
    j: int,
    virt_code: u32,
    direction: Direction,
    is_injected: bool,
) -> Stimulus {
    if is_injected || !has_source(configs, virt_code) {
        Stimulus::OtherInput
    } else if configs[j].from.virt_code != virt_code {
        Stimulus::OtherRemappedKey
    } else if direction == Direction::Down {
        Stimulus::Press
    } else {
        Stimulus::Release
    }
}

/// The mapping after a stimulus.
pub open spec fn key_step(remap: Remap, stimulus: Stimulus) -> Remap {
    match stimulus {
        Stimulus::Press => if remap.state == State::Idle {
            remap.with_state(State::HeldDownAlone)
        } else {
            remap
        },
        Stimulus::Release => remap.with_state(State::Idle),
        Stimulus::OtherRemappedKey => remap,
        Stimulus::OtherInput => remap.committed(),
    }
}

/// What a stimulus makes the mapping synthesize.
pub open spec fn key_output(remap: Remap, stimulus: Stimulus) -> Seq<Injection> {
    match stimulus {
        Stimulus::Press => Seq::empty(),
        Stimulus::Release => remap.release_injections(),
        Stimulus::OtherRemappedKey => Seq::empty(),
        Stimulus::OtherInput => if remap.state == State::HeldDownAlone {
            seq![remap.other_down()]
        } else {
            Seq::empty()
        },
    }
}

/// What an event makes the first `n` mappings synthesize, one mapping after
/// the other.
pub open spec fn joined_outputs(
    remaps: Seq<Remap>,
    virt_code: u32,
    direction: Direction,
    is_injected: bool,
    n: nat,
) -> Seq<Injection>
    decreases n,
{
    if n == 0 {
        Seq::empty()
    } else {
        joined_outputs(remaps, virt_code, direction, is_injected, (n - 1) as nat) + key_output(
            remaps[n - 1],
            stimulus_for(configs_of(remaps), n - 1, virt_code, direction, is_injected),
        )
    }
}

/// The mappings after a sequence of events.
pub open spec fn run(remaps: Seq<Remap>, events: Seq<KeyEvent>) -> Seq<Remap>
    decreases events.len(),
{
    if events.len() == 0 {
        remaps
    } else {
        let e = events.last();
        next_remaps(run(remaps, events.drop_last()), e.virt_code, e.direction, e.is_injected)
    }
}

/// Everything that the mapping at position `j` synthesizes in the course of
/// a sequence of events.
pub open spec fn key_outputs(remaps: Seq<Remap>, j: int, events: Seq<KeyEvent>) -> Seq<Injection>
    decreases events.len(),
{
    if events.len() == 0 {
        Seq::empty()
    } else {
        let e = events.last();
        let before = run(remaps, events.drop_last());
        key_outputs(remaps, j, events.drop_last()) + key_output(
            before[j],
            stimulus_for(configs_of(before), j, e.virt_code, e.direction, e.is_injected),
        )
    }
}

/// Whether an event is the press or release of the key with this virtual
/// code.
pub open spec fn is_operation_on(event: KeyEvent, virt_code: u32) -> bool {
    !event.is_injected && event.virt_code == virt_code
}

/// The events that are left when the presses and releases of one key are
/// taken out.
pub open spec fn without_operations_on(events: Seq<KeyEvent>, virt_code: u32) -> Seq<KeyEvent>
    decreases events.len(),
{
    if events.len() == 0 {
        Seq::empty()
    } else {
        let rest = without_operations_on(events.drop_last(), virt_code);
        if is_operation_on(events.last(), virt_code) {
            rest
        } else {
            rest.push(events.last())
        }
    }
}

/// Where no two mappings remap the same key, the mapping that remaps a key
/// is found at one position only.
pub proof fn lemma_source_index(remaps: Seq<Remap>, virt_code: u32, i: int)
    requires
        distinct_sources(configs_of(remaps)),
        0 <= i < remaps.len(),
        remaps[i].config.from.virt_code == virt_code,
    ensures
        is_source(remaps, virt_code),
        has_source(configs_of(remaps), virt_code),
        source_index(remaps, virt_code) == i,
{
    let k = source_index(remaps, virt_code);
    assert(configs_of(remaps)[i].from.virt_code == virt_code);
    assert(configs_of(remaps)[k].from.virt_code == virt_code);
}

/// A key is remapped by the mappings exactly if it is by their
/// configurations.
pub proof fn lemma_is_source(remaps: Seq<Remap>, virt_code: u32)
    ensures
        is_source(remaps, virt_code) == has_source(configs_of(remaps), virt_code),
        is_source(remaps, virt_code) ==> 0 <= source_index(remaps, virt_code) < remaps.len()
            && remaps[source_index(remaps, virt_code)].config.from.virt_code == virt_code,
{
    if is_source(remaps, virt_code) {
        let k = source_index(remaps, virt_code);
        assert(configs_of(remaps)[k].from.virt_code == virt_code);
    }
    if has_source(configs_of(remaps), virt_code) {
        let k = choose|k: int|
            0 <= k < configs_of(remaps).len() && configs_of(remaps)[k].from.virt_code == virt_code;
        assert(remaps[k].config.from.virt_code == virt_code);
    }
}

/// The engine is one state machine for each mapping: an event leaves the
/// mappings themselves as they are, and takes each of them to the state
/// that its own stimulus leads to.
pub proof fn lemma_each_key_steps_alone(
    remaps: Seq<Remap>,
    virt_code: u32,
    direction: Direction,
    is_injected: bool,
)
    requires
        distinct_sources(configs_of(remaps)),
    ensures
        next_remaps(remaps, virt_code, direction, is_injected).len() == remaps.len(),
        configs_of(next_remaps(remaps, virt_code, direction, is_injected)) == configs_of(remaps),
        forall|j: int|
            0 <= j < remaps.len() ==> #[trigger] next_remaps(
                remaps,
                virt_code,
                direction,
                is_injected,
            )[j] == key_step(
                remaps[j],
                stimulus_for(configs_of(remaps), j, virt_code, direction, is_injected),
            ),
{
    let next = next_remaps(remaps, virt_code, direction, is_injected);
    lemma_is_source(remaps, virt_code);
    if is_remapped_key_event(remaps, virt_code, is_injected) {
        let i = source_index(remaps, virt_code);
        assert forall|j: int| 0 <= j < remaps.len() implies #[trigger] next[j] == key_step(
            remaps[j],
            stimulus_for(configs_of(remaps), j, virt_code, direction, is_injected),
        ) by {
            if remaps[j].config.from.virt_code == virt_code {
                lemma_source_index(remaps, virt_code, j);
            }
        }
    }
    assert(configs_of(next) =~= configs_of(remaps));
}

/// What an event synthesizes is what it makes each mapping synthesize, in
/// the order of the mappings.
pub proof fn lemma_outputs_by_key(
    remaps: Seq<Remap>,
    virt_code: u32,
    direction: Direction,
    is_injected: bool,
)
    requires
        distinct_sources(configs_of(remaps)),
    ensures
        injections_for(remaps, virt_code, direction, is_injected) == joined_outputs(
            remaps,
            virt_code,
            direction,
            is_injected,
            remaps.len(),
        ),
{
    lemma_joined_outputs(remaps, virt_code, direction, is_injected, remaps.len());
    lemma_is_source(remaps, virt_code);
    assert(remaps.take(remaps.len() as int) =~= remaps);
}

/// What an event makes the first `n` mappings synthesize: for the release
/// of a dual-role key, what its mapping asks for once `n` reaches it; for
/// other input, what other input synthesizes for those mappings.
proof fn lemma_joined_outputs(
    remaps: Seq<Remap>,
    virt_code: u32,
    direction: Direction,
    is_injected: bool,
    n: nat,
)
    requires
        distinct_sources(configs_of(remaps)),
        n <= remaps.len(),
    ensures
        joined_outputs(remaps, virt_code, direction, is_injected, n) == if is_remapped_key_event(
            remaps,
            virt_code,
            is_injected,
        ) {
            if source_index(remaps, virt_code) < n && direction == Direction::Up {
                remaps[source_index(remaps, virt_code)].release_injections()
            } else {
                Seq::empty()
            }
        } else {
            other_input_injections(remaps.take(n as int))
        },
    decreases n,
{
    lemma_is_source(remaps, virt_code);
    if n > 0 {
        let m = (n - 1) as nat;
        lemma_joined_outputs(remaps, virt_code, direction, is_injected, m);
        let before = joined_outputs(remaps, virt_code, direction, is_injected, m);
        let out = key_output(
            remaps[m as int],
            stimulus_for(configs_of(remaps), m as int, virt_code, direction, is_injected),
        );
        assert(configs_of(remaps)[m as int] == remaps[m as int].config);
        if is_remapped_key_event(remaps, virt_code, is_injected) {
            if remaps[m as int].config.from.virt_code == virt_code {
                lemma_source_index(remaps, virt_code, m as int);
            }
            assert(before + out =~= joined_outputs(remaps, virt_code, direction, is_injected, n));
            if source_index(remaps, virt_code) < n && direction == Direction::Up {
                assert(before + out =~= remaps[source_index(remaps, virt_code)].release_injections());
            } else {
                assert(before + out =~= Seq::<Injection>::empty());
            }
        } else {
            assert(remaps.take(n as int).drop_last() =~= remaps.take(m as int));
            assert(remaps.take(n as int).last() == remaps[m as int]);
            assert(before + out =~= other_input_injections(remaps.take(n as int)));
        }
    } else {
        assert(remaps.take(0) =~= Seq::<Remap>::empty());
    }
}

/// A sequence of events leaves the mappings themselves as they are.
pub proof fn lemma_run_keeps_configs(remaps: Seq<Remap>, events: Seq<KeyEvent>)
    requires
        distinct_sources(configs_of(remaps)),
    ensures
        run(remaps, events).len() == remaps.len(),
        configs_of(run(remaps, events)) == configs_of(remaps),
    decreases events.len(),
{
    if events.len() > 0 {
        let e = events.last();
        lemma_run_keeps_configs(remaps, events.drop_last());
        lemma_each_key_steps_alone(
            run(remaps, events.drop_last()),
            e.virt_code,
            e.direction,
            e.is_injected,
        );
    }
}

/// Two dual-role keys evolve independently: whatever presses and releases
/// of one key are mixed into a sequence of events, the other key ends in
/// the same state and has synthesized the same events as without them.
pub proof fn lemma_keys_are_independent(
    remaps: Seq<Remap>,
    a: int,
    b: int,
    events: Seq<KeyEvent>,
)
    requires
        distinct_sources(configs_of(remaps)),
        0 <= a < remaps.len(),
        0 <= b < remaps.len(),
        a != b,
    ensures
        run(remaps, events)[b] == run(
            remaps,
            without_operations_on(events, remaps[a].config.from.virt_code),
        )[b],
        key_outputs(remaps, b, events) == key_outputs(
            remaps,
            b,
            without_operations_on(events, remaps[a].config.from.virt_code),
        ),
    decreases events.len(),
{
    let key = remaps[a].config.from.virt_code;
    if events.len() > 0 {
        let e = events.last();
        let earlier = events.drop_last();
        let kept = without_operations_on(earlier, key);
        lemma_keys_are_independent(remaps, a, b, earlier);
        lemma_run_keeps_configs(remaps, earlier);
        lemma_run_keeps_configs(remaps, kept);
        lemma_each_key_steps_alone(run(remaps, earlier), e.virt_code, e.direction, e.is_injected);
        lemma_each_key_steps_alone(run(remaps, kept), e.virt_code, e.direction, e.is_injected);
        if is_operation_on(e, key) {
            lemma_source_index(remaps, key, a);
            assert(configs_of(remaps)[a].from.virt_code != configs_of(remaps)[b].from.virt_code);
            assert(stimulus_for(configs_of(remaps), b, e.virt_code, e.direction, e.is_injected)
                == Stimulus::OtherRemappedKey);
            assert(key_outputs(remaps, b, events) =~= key_outputs(remaps, b, earlier));
        } else {
            assert(kept.push(e).drop_last() =~= kept);
            assert(kept.push(e).last() == e);
        }
    }
}

/// A press or release of one dual-role key leaves every other mapping as
/// it is, and synthesizes only what the mapping of that key asks for.
pub proof fn lemma_other_keys_are_untouched(
    remaps: Seq<Remap>,
    virt_code: u32,
    direction: Direction,
    j: int,
)
    requires
        distinct_sources(configs_of(remaps)),
        is_source(remaps, virt_code),
        0 <= j < remaps.len(),
        remaps[j].config.from.virt_code != virt_code,
    ensures
        next_remaps(remaps, virt_code, direction, false)[j] == remaps[j],
        injections_for(remaps, virt_code, direction, false) == key_output(
            remaps[source_index(remaps, virt_code)],
            if direction == Direction::Down {
                Stimulus::Press
            } else {
                Stimulus::Release
            },
        ),
{
    lemma_is_source(remaps, virt_code);
    lemma_each_key_steps_alone(remaps, virt_code, direction, false);
}

/// A dual-role key that goes down and comes up again with nothing in
/// between is a tap of its alone target: both events are blocked, the press
/// synthesizes nothing, and the release synthesizes the press and then the
/// release of the alone target and leaves the key up. This holds unless the
/// key was down and combined with other input already.
pub proof fn lemma_tap_alone(remaps: Seq<Remap>, virt_code: u32)
    requires
        distinct_sources(configs_of(remaps)),
        is_source(remaps, virt_code),
        remaps[source_index(remaps, virt_code)].state != State::HeldDownWithOther,
    ensures
        ({
            let i = source_index(remaps, virt_code);
            let pressed = next_remaps(remaps, virt_code, Direction::Down, false);
            let released = next_remaps(pressed, virt_code, Direction::Up, false);
            &&& blocks(remaps, virt_code, false)
            &&& injections_for(remaps, virt_code, Direction::Down, false) == Seq::<
                Injection,
            >::empty()
            &&& pressed == remaps.update(i, remaps[i].with_state(State::HeldDownAlone))
            &&& blocks(pressed, virt_code, false)
            &&& injections_for(pressed, virt_code, Direction::Up, false) == seq![
                remaps[i].alone_down(),
                remaps[i].alone_up(),
            ]
            &&& released == remaps.update(i, remaps[i].with_state(State::Idle))
        }),
{
    let i = source_index(remaps, virt_code);
    lemma_is_source(remaps, virt_code);
    let pressed = next_remaps(remaps, virt_code, Direction::Down, false);
    assert(pressed =~= remaps.update(i, remaps[i].with_state(State::HeldDownAlone)));
    lemma_each_key_steps_alone(remaps, virt_code, Direction::Down, false);
    lemma_source_index(pressed, virt_code, i);
    let released = next_remaps(pressed, virt_code, Direction::Up, false);
    assert(released =~= remaps.update(i, remaps[i].with_state(State::Idle)));
    assert(injections_for(pressed, virt_code, Direction::Up, false) =~= seq![
        remaps[i].alone_down(),
        remaps[i].alone_up(),
    ]);
}

/// Other input synthesizes presses of other-input targets and nothing else.
pub proof fn lemma_other_input_presses_other_targets(remaps: Seq<Remap>)
    ensures
        forall|k: int|
            0 <= k < other_input_injections(remaps).len() ==> {
                &&& (#[trigger] other_input_injections(remaps)[k]).role == Role::WithOther
                &&& other_input_injections(remaps)[k].direction == Direction::Down
            },
    decreases remaps.len(),
{
    if remaps.len() > 0 {
        lemma_other_input_presses_other_targets(remaps.drop_last());
    }
}

/// How many keys are held alone.
pub open spec fn held_alone_count(remaps: Seq<Remap>) -> nat
    decreases remaps.len(),
{
    if remaps.len() == 0 {
        0
    } else if remaps.last().state == State::HeldDownAlone {
        held_alone_count(remaps.drop_last()) + 1
    } else {
        held_alone_count(remaps.drop_last())
    }
}

/// Other input synthesizes one event for each key that is held alone, the
/// press of its other-input target, and no other event.
pub proof fn lemma_other_input_presses_each_key_held_alone(remaps: Seq<Remap>)
    ensures
        other_input_injections(remaps).len() == held_alone_count(remaps),
        forall|j: int|
            0 <= j < remaps.len() && (#[trigger] remaps[j]).state == State::HeldDownAlone
                ==> other_input_injections(remaps).contains(remaps[j].other_down()),
        forall|k: int|
            #![trigger other_input_injections(remaps)[k]]
            0 <= k < other_input_injections(remaps).len() ==> exists|j: int|
                0 <= j < remaps.len() && (#[trigger] remaps[j]).state == State::HeldDownAlone
                    && other_input_injections(remaps)[k] == remaps[j].other_down(),
    decreases remaps.len(),
{
    let sent = other_input_injections(remaps);
    if remaps.len() > 0 {
        let earlier = remaps.drop_last();
        let before = other_input_injections(earlier);
        let last = remaps.len() - 1;
        lemma_other_input_presses_each_key_held_alone(earlier);
        assert forall|j: int|
            0 <= j < remaps.len() && (#[trigger] remaps[j]).state
                == State::HeldDownAlone implies sent.contains(remaps[j].other_down()) by {
            if j < last {
                assert(earlier[j] == remaps[j]);
                let k = choose|k: int| 0 <= k < before.len() && before[k] == earlier[j].other_down();
                assert(sent[k] == remaps[j].other_down());
            } else {
                assert(sent[before.len() as int] == remaps[j].other_down());
            }
        }
        assert forall|k: int| #![trigger sent[k]] 0 <= k < sent.len() implies exists|j: int|
            0 <= j < remaps.len() && (#[trigger] remaps[j]).state == State::HeldDownAlone && sent[k]
                == remaps[j].other_down() by {
            if k < before.len() {
                let j = choose|j: int|
                    0 <= j < earlier.len() && (#[trigger] earlier[j]).state == State::HeldDownAlone
                        && before[k] == earlier[j].other_down();
                assert(remaps[j] == earlier[j]);
            } else {
                assert(remaps[last].state == State::HeldDownAlone);
            }
        }
    }
}

/// Where no key is held alone, other input synthesizes nothing and changes
/// nothing.
pub proof fn lemma_other_input_without_held_alone(remaps: Seq<Remap>)
    requires
        forall|j: int| 0 <= j < remaps.len() ==> remaps[j].state != State::HeldDownAlone,
    ensures
        other_input_injections(remaps) == Seq::<Injection>::empty(),
        after_other_input(remaps) == remaps,
    decreases remaps.len(),
{
    if remaps.len() > 0 {
        lemma_other_input_without_held_alone(remaps.drop_last());
    }
    assert(after_other_input(remaps) =~= remaps);
}

/// What other input synthesizes for mappings written one after the other
/// is what it synthesizes for the first, then for the second.
pub proof fn lemma_other_input_injections_concat(first: Seq<Remap>, second: Seq<Remap>)
    ensures
        other_input_injections(first + second) == other_input_injections(first)
            + other_input_injections(second),
    decreases second.len(),
{
    if second.len() == 0 {
        assert(first + second =~= first);
        assert(other_input_injections(first) + Seq::<Injection>::empty()
            =~= other_input_injections(first));
    } else {
        lemma_other_input_injections_concat(first, second.drop_last());
        assert((first + second).drop_last() =~= first + second.drop_last());
        assert((first + second).last() == second.last());
        let joined = other_input_injections(first) + other_input_injections(second.drop_last());
        if second.last().state == State::HeldDownAlone {
            assert(joined.push(second.last().other_down()) =~= other_input_injections(first)
                + other_input_injections(second));
        }
    }
}

/// A dual-role key that is held while another key goes down and comes up
/// stands for its other-input target. The press of the dual-role key is
/// blocked and synthesizes nothing. The press of the other key passes, and
/// synthesizes the press of the other-input target, after what the mappings
/// before this one synthesize and before what those after it do. The
/// release of the other key passes and synthesizes nothing. The release of
/// the dual-role key is blocked and synthesizes the release of the
/// other-input target, and nothing else. This holds unless the dual-role
/// key was down and combined with other input already.
pub proof fn lemma_held_with_other(remaps: Seq<Remap>, virt_code: u32, other: u32)
    requires
        distinct_sources(configs_of(remaps)),
        is_source(remaps, virt_code),
        !is_source(remaps, other),
        remaps[source_index(remaps, virt_code)].state != State::HeldDownWithOther,
    ensures
        ({
            let i = source_index(remaps, virt_code);
            let s1 = next_remaps(remaps, virt_code, Direction::Down, false);
            let s2 = next_remaps(s1, other, Direction::Down, false);
            let s3 = next_remaps(s2, other, Direction::Up, false);
            let s4 = next_remaps(s3, virt_code, Direction::Up, false);
            &&& blocks(remaps, virt_code, false)
            &&& injections_for(remaps, virt_code, Direction::Down, false) == Seq::<
                Injection,
            >::empty()
            &&& !blocks(s1, other, false)
            &&& injections_for(s1, other, Direction::Down, false) == other_input_injections(
                s1.take(i),
            ).push(remaps[i].other_down()) + other_input_injections(s1.skip(i + 1))
            &&& forall|k: int|
                0 <= k < injections_for(s1, other, Direction::Down, false).len() ==> (
                #[trigger] injections_for(s1, other, Direction::Down, false)[k]).role
                    == Role::WithOther
            &&& s2[i].state == State::HeldDownWithOther
            &&& !blocks(s2, other, false)
            &&& injections_for(s2, other, Direction::Up, false) == Seq::<Injection>::empty()
            &&& s3 == s2
            &&& blocks(s3, virt_code, false)
            &&& injections_for(s3, virt_code, Direction::Up, false) == seq![remaps[i].other_up()]
            &&& s4 == s3.update(i, remaps[i].with_state(State::Idle))
        }),
{
    let i = source_index(remaps, virt_code);
    lemma_is_source(remaps, virt_code);
    lemma_is_source(remaps, other);
    let s1 = next_remaps(remaps, virt_code, Direction::Down, false);
    lemma_each_key_steps_alone(remaps, virt_code, Direction::Down, false);
    lemma_is_source(s1, other);
    assert(s1[i].state == State::HeldDownAlone);
    assert(s1[i].config == remaps[i].config) by {
        assert(configs_of(s1)[i] == configs_of(remaps)[i]);
    }

    let pressed = injections_for(s1, other, Direction::Down, false);
    assert(pressed == other_input_injections(s1));
    assert(s1 =~= (s1.take(i) + seq![s1[i]]) + s1.skip(i + 1));
    lemma_other_input_injections_concat(s1.take(i) + seq![s1[i]], s1.skip(i + 1));
    lemma_other_input_injections_concat(s1.take(i), seq![s1[i]]);
    assert(other_input_injections(seq![s1[i]]) =~= seq![s1[i].other_down()]) by {
        assert(seq![s1[i]].drop_last() =~= Seq::<Remap>::empty());
        assert(seq![s1[i]].last() == s1[i]);
        assert(other_input_injections(seq![s1[i]].drop_last()) =~= Seq::<Injection>::empty());
    }
    assert(other_input_injections(s1.take(i)) + seq![s1[i].other_down()]
        =~= other_input_injections(s1.take(i)).push(remaps[i].other_down()));
    lemma_other_input_presses_other_targets(s1);

    let s2 = next_remaps(s1, other, Direction::Down, false);
    lemma_each_key_steps_alone(s1, other, Direction::Down, false);
    lemma_is_source(s2, other);
    assert(s2 == after_other_input(s1));
    lemma_other_input_without_held_alone(s2);

    let s3 = next_remaps(s2, other, Direction::Up, false);
    assert(s3 == s2);
    assert(s3[i].config == remaps[i].config) by {
        assert(configs_of(s3)[i] == configs_of(remaps)[i]);
    }
    lemma_source_index(s3, virt_code, i);
    assert(injections_for(s3, virt_code, Direction::Up, false) =~= seq![remaps[i].other_up()]);
    let s4 = next_remaps(s3, virt_code, Direction::Up, false);
    assert(s4 =~= s3.update(i, remaps[i].with_state(State::Idle)));
}

/// That the key was down already changes nothing about a press: where the
/// key is not up, its press synthesizes nothing and leaves every state as
/// it is. So does any press that follows another with no release between.
pub proof fn lemma_repeated_down_changes_nothing(remaps: Seq<Remap>, virt_code: u32)
    requires
        distinct_sources(configs_of(remaps)),
        is_source(remaps, virt_code),
    ensures
        remaps[source_index(remaps, virt_code)].state != State::Idle ==> next_remaps(
            remaps,
            virt_code,
            Direction::Down,
            false,
        ) == remaps,
        injections_for(remaps, virt_code, Direction::Down, false) == Seq::<Injection>::empty(),
        ({
            let pressed = next_remaps(remaps, virt_code, Direction::Down, false);
            &&& next_remaps(pressed, virt_code, Direction::Down, false) == pressed
            &&& injections_for(pressed, virt_code, Direction::Down, false) == Seq::<
                Injection,
            >::empty()
            &&& blocks(pressed, virt_code, false)
        }),
{
    let i = source_index(remaps, virt_code);
    lemma_is_source(remaps, virt_code);
    let pressed = next_remaps(remaps, virt_code, Direction::Down, false);
    lemma_each_key_steps_alone(remaps, virt_code, Direction::Down, false);
    assert(configs_of(pressed)[i] == configs_of(remaps)[i]);
    lemma_source_index(pressed, virt_code, i);
}

/// A synthesized event is never blocked and is never taken for the press
/// or release of a dual-role key, whatever its virtual code and direction:
/// it is other input, as is an event of a key that no mapping remaps.
pub proof fn lemma_injected_is_other_input(
    remaps: Seq<Remap>,
    virt_code: u32,
    direction: Direction,
)
    ensures
        !blocks(remaps, virt_code, true),
        next_remaps(remaps, virt_code, direction, true) == after_other_input(remaps),
        injections_for(remaps, virt_code, direction, true) == other_input_injections(remaps),
        forall|j: int|
            0 <= j < remaps.len() ==> #[trigger] next_remaps(remaps, virt_code, direction, true)[j]
                == remaps[j].committed(),
{
}

} // verus!
