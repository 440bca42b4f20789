//! The threshold notifier: an edge-triggered state machine that decides,
//! from a stream of battery percentage readings, when a low-battery alert
//! should fire. An alert fires at most once per downward threshold
//! crossing; charging suppresses delivery but still advances the state.

use vstd::prelude::*;
use vstd::string::StringExecFns;

verus! {

/// True when moving from the previously notified level `last` to `current`
/// crosses down through the threshold `t`: on the very first reading every
/// threshold at or above `current` counts as crossed; afterwards `t` is
/// crossed only if the last notified level was still strictly above it.
pub open spec fn crosses(last: Option<u8>, t: u8, current: u8) -> bool {
    match last {
        Option::None => current <= t,
        Option::Some(l) => l > t && current <= t,
    }
}

/// True when moving from `last` to `current` crosses down through at least
/// one threshold in `thresholds`.
pub open spec fn crosses_any(last: Option<u8>, thresholds: Seq<u8>, current: u8) -> bool {
    exists|i: int| 0 <= i < thresholds.len() && #[trigger] crosses(last, thresholds[i], current)
}

/// The character for the decimal digit `d`.
pub open spec fn digit_char(d: nat) -> char {
    if d == 0 {
        '0'
    } else if d == 1 {
        '1'
    } else if d == 2 {
        '2'
    } else if d == 3 {
        '3'
    } else if d == 4 {
        '4'
    } else if d == 5 {
        '5'
    } else if d == 6 {
        '6'
    } else if d == 7 {
        '7'
    } else if d == 8 {
        '8'
    } else {
        '9'
    }
}

/// The decimal digit characters of `n`, most significant first, without
/// leading zeros.
pub open spec fn decimal_digits(n: nat) -> Seq<char>
    decreases n,
{
    if n < 10 {
        seq![digit_char(n)]
    } else {
        decimal_digits(n / 10).push(digit_char(n % 10))
    }
}

/// The body text of an alert for a reading of `p` percent.
pub open spec fn alert_message(p: u8) -> Seq<char> {
    "Battery level is at "@ + decimal_digits(p as nat) + "%"@
}

/// A low-battery alert: the reading that triggered it and the message text
/// to hand to a delivery collaborator.
pub struct AlertEvent {
    pub percentage: u8,
    pub message: String,
}

/// The notifier state: the configured thresholds and the level reported at
/// the previous evaluation, unset before the first one.
pub struct BatteryNotifier {
    last_notification_level: Option<u8>,
    notification_thresholds: Vec<u8>,
}

/// Appends the digit character of `d` to `s`.
fn push_digit(s: &mut String, d: u8)
    requires
        d < 10,
    ensures
        final(s)@ == old(s)@ + seq![digit_char(d as nat)],
{
    match d {
        0 => {
            proof {
                reveal_strlit("0");
            }
            s.append("0");
        },
        1 => {
            proof {
                reveal_strlit("1");
            }
            s.append("1");
        },
        2 => {
            proof {
                reveal_strlit("2");
            }
            s.append("2");
        },
        3 => {
            proof {
                reveal_strlit("3");
            }
            s.append("3");
        },
        4 => {
            proof {
                reveal_strlit("4");
            }
            s.append("4");
        },
        5 => {
            proof {
                reveal_strlit("5");
            }
            s.append("5");
        },
        6 => {
            proof {
                reveal_strlit("6");
            }
            s.append("6");
        },
        7 => {
            proof {
                reveal_strlit("7");
            }
            s.append("7");
        },
        8 => {
            proof {
                reveal_strlit("8");
            }
            s.append("8");
        },
        _ => {
            proof {
                reveal_strlit("9");
            }
            s.append("9");
        },
    }
    proof {
        assert(s@ =~= old(s)@ + seq![digit_char(d as nat)]);
    }
}

/// Appends the decimal digits of `n` to `s`.
fn push_decimal(s: &mut String, n: u8)
    ensures
        final(s)@ == old(s)@ + decimal_digits(n as nat),
    decreases n,
{
    if n >= 10 {
        push_decimal(s, n / 10);
    }
    push_digit(s, n % 10);
    proof {
        assert(s@ =~= old(s)@ + decimal_digits(n as nat));
    }
}

/// Builds the alert message text for a reading of `p` percent.
fn build_message(p: u8) -> (m: String)
    ensures
        m@ == alert_message(p),
{
    let mut m = String::from_str("Battery level is at ");
    push_decimal(&mut m, p);
    proof {
        reveal_strlit("%");
    }
    m.append("%");
    proof {
        assert(m@ =~= alert_message(p));
    }
    m
}

impl BatteryNotifier {
    /// The level reported at the previous evaluation, if any.
    pub closed spec fn last_level(&self) -> Option<u8> {
        self.last_notification_level
    }

    /// The configured alert thresholds, in the order supplied.
    pub closed spec fn thresholds(&self) -> Seq<u8> {
        self.notification_thresholds@
    }

    /// A fresh notifier: no reading seen yet, so every threshold is armed.
    pub fn new(thresholds: Vec<u8>) -> (n: BatteryNotifier)
        ensures
            n.last_level() is None,
            n.thresholds() == thresholds@,
    {
        BatteryNotifier { last_notification_level: None, notification_thresholds: thresholds }
    }

    /// One evaluation tick. Returns an alert exactly when the power state
    /// is discharging and the reading crosses down through some threshold;
    /// the remembered level advances to `percentage` unconditionally.
    pub fn check_and_notify(&mut self, percentage: u8, charging: bool) -> (alert: Option<
        AlertEvent,
    >)
        requires
            percentage <= 100,
        ensures
            final(self).thresholds() == old(self).thresholds(),
            final(self).last_level() == Some(percentage),
            (alert is Some) <==> (!charging && crosses_any(
                old(self).last_level(),
                old(self).thresholds(),
                percentage,
            )),
            alert is Some ==> alert->Some_0.percentage == percentage
                && alert->Some_0.message@ == alert_message(percentage),
    {
        let mut should_notify = false;
        let mut i: usize = 0;
        while i < self.notification_thresholds.len()
            invariant
                *self == *old(self),
                i <= self.notification_thresholds@.len(),
                should_notify == (exists|j: int|
                    0 <= j < i && #[trigger] crosses(
                        old(self).last_level(),
                        old(self).thresholds()[j],
                        percentage,
                    )),
            decreases self.notification_thresholds@.len() - i,
        {
            let t = self.notification_thresholds[i];
            let crossed = match self.last_notification_level {
                None => percentage <= t,
                Some(last) => last > t && percentage <= t,
            };
            proof {
                assert(crossed == crosses(
                    old(self).last_level(),
                    old(self).thresholds()[i as int],
                    percentage,
                ));
            }
            if crossed {
                should_notify = true;
            }
            i = i + 1;
        }
        let alert = if should_notify && !charging {
            let message = build_message(percentage);
            Some(AlertEvent { percentage: percentage, message: message })
        } else {
            None
        };
        self.last_notification_level = Some(percentage);
        alert
    }
}

/// Law: on the very first reading, an alert fires exactly when the reading
/// is at or below some configured threshold.
pub proof fn lemma_first_reading_fires_iff(thresholds: Seq<u8>, p: u8)
    ensures
        crosses_any(Option::None, thresholds, p) <==> (exists|i: int|
            0 <= i < thresholds.len() && p <= #[trigger] thresholds[i]),
{
    if crosses_any(Option::None, thresholds, p) {
        let i = choose|i: int|
            0 <= i < thresholds.len() && #[trigger] crosses(Option::None, thresholds[i], p);
        assert(p <= thresholds[i]);
    }
    if exists|i: int| 0 <= i < thresholds.len() && p <= #[trigger] thresholds[i] {
        let i = choose|i: int| 0 <= i < thresholds.len() && p <= #[trigger] thresholds[i];
        assert(crosses(Option::None, thresholds[i], p));
    }
}

/// Law: once a level has been recorded, repeating the identical reading
/// never crosses a threshold again, so it can never re-fire an alert.
pub proof fn lemma_repeated_reading_never_refires(thresholds: Seq<u8>, p: u8)
    ensures
        !crosses_any(Some(p), thresholds, p),
{
    assert forall|i: int| 0 <= i < thresholds.len() implies !crosses(
        Some(p),
        thresholds[i],
        p,
    ) by {}
}

/// Law: a reading at or above the previously recorded level crosses no
/// threshold, so rising (for instance while charging back up) never fires
/// an alert by itself.
pub proof fn lemma_rising_reading_never_fires(last: u8, thresholds: Seq<u8>, p: u8)
    requires
        last <= p,
    ensures
        !crosses_any(Some(last), thresholds, p),
{
    assert forall|i: int| 0 <= i < thresholds.len() implies !crosses(
        Some(last),
        thresholds[i],
        p,
    ) by {}
}

/// The level the notifier remembers just before tick `k`, when it starts
/// unset and consumes one reading of `readings` per tick: unset at the
/// first tick, afterwards the previous reading, whatever the power state
/// was then.
pub open spec fn level_before(readings: Seq<u8>, k: int) -> Option<u8> {
    if k <= 0 {
        Option::None
    } else {
        Some(readings[k - 1])
    }
}

/// Law: one alert per downward crossing — if the threshold `t` is crossed
/// at two ticks of a run, the level recovered strictly above `t` at some
/// tick in between, so staying below a threshold can never fire it twice.
pub proof fn lemma_once_per_crossing(readings: Seq<u8>, t: u8, k1: int, k2: int)
    requires
        0 <= k1 < k2 < readings.len(),
        crosses(level_before(readings, k1), t, readings[k1]),
        crosses(level_before(readings, k2), t, readings[k2]),
    ensures
        exists|j: int| k1 <= j < k2 && readings[j] > t,
{
    assert(k1 <= k2 - 1 < k2 && readings[k2 - 1] > t);
}

} // verus!
