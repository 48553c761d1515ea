//! A zone: a named group of output lines that is switched as one.

use crate::action::{level_of, ActionView};
use vstd::prelude::*;
use vstd::string::*;

verus! {

/// How a zone is configured.
#[derive(Debug)]
pub struct ZoneConfig {
    pub name: String,
    pub device_name: String,
    pub pins: Vec<u8>,
    pub delay_millis: u64,
}

/// A write to an output line was refused.
#[derive(Debug, Clone, Copy, PartialEq, Eq, Structural)]
pub struct HardwareError {
    /// The line that could not be written.
    pub pin: u8,
}

/// A zone with the lines that could be acquired for it and the state that
/// was applied to them last.
#[derive(Debug)]
pub struct Zone {
    name: String,
    device_name: String,
    lines: Vec<u8>,
    delay_millis: u64,
    state: bool,
}

/// A zone as plain values.
pub struct ZoneView {
    pub name: Seq<char>,
    pub device_name: Seq<char>,
    pub lines: Seq<u8>,
    pub delay_millis: u64,
    pub state: bool,
}

/// The pins of a configuration that were acquired, in configured order:
/// pin `i` is kept where `acquired` holds `true` at `i`.
pub open spec fn acquired_lines(pins: Seq<u8>, acquired: Seq<bool>) -> Seq<u8>
    decreases pins.len(),
{
    if pins.len() == 0 {
        Seq::empty()
    } else {
        let before = acquired_lines(pins.drop_last(), acquired);
        if pins.len() <= acquired.len() && acquired[pins.len() - 1] {
            before.push(pins.last())
        } else {
            before
        }
    }
}

/// What has to be done, in order, to bring a zone to `desired`: nothing if
/// it is there already, else for each line a write of the level that stands
/// for `desired`, followed by the zone's delay.
pub open spec fn actuation(zone: ZoneView, desired: bool) -> Seq<ActionView> {
    if zone.state == desired {
        Seq::empty()
    } else {
        Seq::new(
            2 * zone.lines.len(),
            |k: int|
                if k % 2 == 0 {
                    ActionView::SetLine { pin: zone.lines[k / 2], level: level_of(desired) }
                } else {
                    ActionView::Sleep { millis: zone.delay_millis }
                },
        )
    }
}

/// What `Zone::set_state` answers for a zone, where the first `written` of
/// its lines took their write: no change if the zone is at `desired`
/// already, a change if every line is written, and else the line whose
/// write failed.
pub open spec fn set_state_result(zone: ZoneView, desired: bool, written: int) -> Result<
    bool,
    HardwareError,
> {
    if zone.state == desired {
        Ok(false)
    } else if written < zone.lines.len() {
        Err(HardwareError { pin: zone.lines[written] })
    } else {
        Ok(true)
    }
}

/// The zone after `Zone::set_state`: at `desired` unless a write failed.
pub open spec fn set_state_zone(zone: ZoneView, desired: bool, written: int) -> ZoneView {
    if set_state_result(zone, desired, written) is Ok {
        ZoneView { state: desired, ..zone }
    } else {
        zone
    }
}

/// The zone that `Zone::new` makes for `config`: switched off, with the
/// lines that were acquired.
pub open spec fn new_zone(config: ZoneConfig, acquired: Seq<bool>) -> ZoneView {
    ZoneView {
        name: config.name@,
        device_name: config.device_name@,
        lines: acquired_lines(config.pins@, acquired),
        delay_millis: config.delay_millis,
        state: false,
    }
}

impl View for Zone {
    type V = ZoneView;

    closed spec fn view(&self) -> ZoneView {
        ZoneView {
            name: self.name@,
            device_name: self.device_name@,
            lines: self.lines@,
            delay_millis: self.delay_millis,
            state: self.state,
        }
    }
}

impl Zone {
    /// A zone for `config`, switched off. `acquired` tells for each
    /// configured pin, by position, whether its line could be acquired; a
    /// pin without an entry counts as not acquired. The zone keeps the
    /// acquired lines only.
    pub fn new(config: &ZoneConfig, acquired: &Vec<bool>) -> (zone: Zone)
        ensures
            zone@ == new_zone(*config, acquired@),
            zone@.lines.len() <= usize::MAX,
    {
        let mut lines: Vec<u8> = Vec::new();
        let total: usize = config.pins.len();
        let mut i: usize = 0;
        while i < total
            invariant
                total == config.pins.len(),
                i <= total,
                lines@ == acquired_lines(config.pins@.take(i as int), acquired@),
            decreases total - i,
        {
            assert(config.pins@.take(i + 1).drop_last() =~= config.pins@.take(i as int));
            if i < acquired.len() && acquired[i] {
                lines.push(config.pins[i]);
            }
            i = i + 1;
        }
        assert(config.pins@.take(total as int) =~= config.pins@);
        assert(lines@.len() <= usize::MAX) by {
            assert(lines@.len() == lines.len());
        }
        Zone {
            name: config.name.clone(),
            device_name: config.device_name.clone(),
            lines,
            delay_millis: config.delay_millis,
            state: false,
        }
    }

    /// The zone's name for people.
    pub fn name(&self) -> (name: &String)
        ensures
            name@ == self@.name,
    {
        &self.name
    }

    /// The identifier of the device whose shadow the zone follows.
    pub fn device_name(&self) -> (device_name: &String)
        ensures
            device_name@ == self@.device_name,
    {
        &self.device_name
    }

    /// The state that was applied last.
    pub fn state(&self) -> (state: bool)
        ensures
            state == self@.state,
    {
        self.state
    }

    /// The lines of the zone, in the order in which they are switched.
    pub fn lines(&self) -> (lines: &Vec<u8>)
        ensures
            lines@ == self@.lines,
    {
        &self.lines
    }

    /// The time to let pass after each line is switched, in milliseconds.
    pub fn delay_millis(&self) -> (millis: u64)
        ensures
            millis == self@.delay_millis,
    {
        self.delay_millis
    }

    /// Records how an attempt to bring the zone to `desired` ended, where
    /// the first `written` of its lines took their write.
    ///
    /// A zone that is at `desired` already needs no write and reports no
    /// change. Otherwise the zone takes the new state once every line is
    /// written; a line left unwritten is the one whose write failed, and
    /// the zone then keeps its state.
    pub fn set_state(&mut self, desired: bool, written: usize) -> (result: Result<bool, HardwareError>)
        ensures
            result == set_state_result(old(self)@, desired, written as int),
            final(self)@ == set_state_zone(old(self)@, desired, written as int),
    {
        if self.state == desired {
            Ok(false)
        } else if written < self.lines.len() {
            Err(HardwareError { pin: self.lines[written] })
        } else {
            self.state = desired;
            Ok(true)
        }
    }
}

/// Setting a state twice switches the lines once. Bringing a zone to a state
/// it is not at takes a write of every line, in configured order, each
/// followed by the delay. Once every line is written the zone is at the
/// state, and bringing it there again takes no write, changes nothing and
/// reports no change.
pub proof fn lemma_set_state_twice(zone: ZoneView, desired: bool)
    ensures
        ({
            let once = set_state_zone(zone, desired, zone.lines.len() as int);
            &&& set_state_result(zone, desired, zone.lines.len() as int) == Ok::<
                bool,
                HardwareError,
            >(zone.state != desired)
            &&& once.state == desired
            &&& zone.state != desired ==> actuation(zone, desired).len() == 2 * zone.lines.len()
            &&& forall|line: int|
                zone.state != desired && 0 <= line < zone.lines.len() ==> #[trigger] actuation(
                    zone,
                    desired,
                )[2 * line] == (ActionView::SetLine {
                    pin: zone.lines[line],
                    level: level_of(desired),
                }) && actuation(zone, desired)[2 * line + 1] == (ActionView::Sleep {
                    millis: zone.delay_millis,
                })
            &&& actuation(once, desired).len() == 0
            &&& forall|written: int| #[trigger]
                set_state_result(once, desired, written) == Ok::<bool, HardwareError>(false)
            &&& forall|written: int| #[trigger] set_state_zone(once, desired, written) == once
        }),
{
}

/// A write that fails leaves the zone as it was, so that the same state can
/// be asked for again and is then written anew.
pub proof fn lemma_failed_write_keeps_state(zone: ZoneView, desired: bool, written: int)
    requires
        zone.state != desired,
        0 <= written < zone.lines.len(),
    ensures
        set_state_result(zone, desired, written) == Err::<bool, HardwareError>(
            HardwareError { pin: zone.lines[written] },
        ),
        set_state_zone(zone, desired, written) == zone,
{
}

} // verus!
