//! The pool of API keys: rotation, concurrency windows and cooldowns.

use vstd::prelude::*;

use crate::number::clipped;

verus! {

/// An API key and what is known of its use. Times are milliseconds on the caller's clock.
pub struct KeySlot {
    pub key: String,
    pub label: Option<String>,
    pub in_flight: usize,
    pub max_in_flight: usize,
    pub configured_max_in_flight: usize,
    pub cooldown_until_ms: u64,
}

/// A key that was handed out, with one place in its window taken.
pub struct KeyLease {
    pub key: String,
    pub label: Option<String>,
    pub idx: usize,
}

/// Why no key was handed out.
#[derive(PartialEq, Eq, Structural, Clone, Copy, Debug)]
pub enum KeyAcquireError {
    NoKeys,
    AllCoolingDown,
    AllBusy,
}

/// Whether a key is not cooling down.
pub open spec fn slot_active(slot: KeySlot, now_ms: u64) -> bool {
    slot.cooldown_until_ms <= now_ms
}

/// Whether a key can take one more request.
pub open spec fn slot_free(slot: KeySlot, now_ms: u64) -> bool {
    slot_active(slot, now_ms) && slot.in_flight < slot.max_in_flight
}

/// The number of places in the window of a key, none while it cools down.
pub open spec fn slot_window(slot: KeySlot, now_ms: u64) -> nat {
    if slot_active(slot, now_ms) {
        slot.max_in_flight as nat
    } else {
        0
    }
}

/// The number of free places in the window of a key.
pub open spec fn slot_room(slot: KeySlot, now_ms: u64) -> nat {
    if slot_free(slot, now_ms) {
        (slot.max_in_flight - slot.in_flight) as nat
    } else {
        0
    }
}

/// The number of keys that are not cooling down.
pub open spec fn active_slots(slots: Seq<KeySlot>, now_ms: u64) -> nat
    decreases slots.len(),
{
    if slots.len() == 0 {
        0
    } else {
        active_slots(slots.drop_last(), now_ms) + (if slot_active(slots.last(), now_ms) {
            1nat
        } else {
            0
        })
    }
}

/// The number of places in all windows.
pub open spec fn total_window(slots: Seq<KeySlot>, now_ms: u64) -> nat
    decreases slots.len(),
{
    if slots.len() == 0 {
        0
    } else {
        total_window(slots.drop_last(), now_ms) + slot_window(slots.last(), now_ms)
    }
}

/// The number of free places in all windows.
pub open spec fn total_room(slots: Seq<KeySlot>, now_ms: u64) -> nat
    decreases slots.len(),
{
    if slots.len() == 0 {
        0
    } else {
        total_room(slots.drop_last(), now_ms) + slot_room(slots.last(), now_ms)
    }
}

/// The position `step` places behind `start` in a ring of `n`.
pub open spec fn ring(start: int, step: int, n: int) -> int {
    if start + step < n {
        start + step
    } else {
        start + step - n
    }
}

/// Whether `idx` is the first free key from the cursor on.
pub open spec fn first_free(slots: Seq<KeySlot>, cursor: int, now_ms: u64, idx: int) -> bool {
    &&& 0 <= idx < slots.len()
    &&& slot_free(slots[idx], now_ms)
    &&& exists|step: int|
        {
            &&& 0 <= step < slots.len()
            &&& idx == #[trigger] ring(cursor, step, slots.len() as int)
            &&& forall|k: int|
                0 <= k < step ==> !slot_free(
                    slots[#[trigger] ring(cursor, k, slots.len() as int)],
                    now_ms,
                )
        }
}

/// Whether `idx` is the first key from the cursor on that is not cooling down.
pub open spec fn first_active(slots: Seq<KeySlot>, cursor: int, now_ms: u64, idx: int) -> bool {
    let n = slots.len() as int;
    &&& 0 <= idx < n
    &&& slot_active(slots[idx], now_ms)
    &&& exists|k: int|
        {
            &&& 0 <= k < n
            &&& idx == #[trigger] ring(cursor, k, n)
            &&& forall|j: int|
                0 <= j < k ==> !slot_active(slots[#[trigger] ring(cursor, j, n)], now_ms)
        }
}

/// A key with one more request in flight.
pub open spec fn slot_taken(slot: KeySlot) -> KeySlot {
    KeySlot { in_flight: (slot.in_flight + 1) as usize, ..slot }
}

/// The keys, and the position from which the next one is sought.
pub struct KeyPool {
    pub slots: Vec<KeySlot>,
    pub cursor: usize,
}

impl KeyPool {
    /// Whether the cursor is a position in the pool.
    pub open spec fn wf(self) -> bool {
        self.slots@.len() > 0 ==> self.cursor < self.slots@.len()
    }

    /// A pool of unused keys, each with a window of `max_in_flight` places.
    pub fn new(keys: Vec<(String, Option<String>)>, max_in_flight: usize) -> (r: KeyPool)
        ensures
            r.wf(),
            r.cursor == 0,
            r.slots@.len() == keys@.len(),
            forall|i: int|
                0 <= i < keys@.len() ==> (#[trigger] r.slots@[i]) == (KeySlot {
                    key: keys@[i].0,
                    label: keys@[i].1,
                    in_flight: 0,
                    max_in_flight,
                    configured_max_in_flight: max_in_flight,
                    cooldown_until_ms: 0,
                }),
    {
        let ghost all = keys@;
        let mut slots: Vec<KeySlot> = Vec::new();
        for entry in it: keys
            invariant
                it.seq() == all,
                slots@.len() == it.index(),
                forall|i: int|
                    0 <= i < slots@.len() ==> (#[trigger] slots@[i]) == (KeySlot {
                        key: all[i].0,
                        label: all[i].1,
                        in_flight: 0,
                        max_in_flight,
                        configured_max_in_flight: max_in_flight,
                        cooldown_until_ms: 0,
                    }),
        {
            let (key, label) = entry;
            slots.push(
                KeySlot {
                    key,
                    label,
                    in_flight: 0,
                    max_in_flight,
                    configured_max_in_flight: max_in_flight,
                    cooldown_until_ms: 0,
                },
            );
        }
        KeyPool { slots, cursor: 0 }
    }

    /// The number of keys.
    pub fn len(&self) -> (r: usize)
        ensures
            r == self.slots@.len(),
    {
        self.slots.len()
    }

    /// The number of keys that are not cooling down.
    pub fn active_count(&self, now_ms: u64) -> (r: usize)
        ensures
            r == active_slots(self.slots@, now_ms),
            r <= self.slots@.len(),
    {
        let ghost s = self.slots@;
        let mut count: usize = 0;
        let mut i: usize = 0;
        assert(s.take(0) =~= Seq::empty());
        while i < self.slots.len()
            invariant
                s == self.slots@,
                i <= s.len(),
                count <= i,
                count == active_slots(s.take(i as int), now_ms),
            decreases s.len() - i,
        {
            assert(s.take(i + 1).drop_last() =~= s.take(i as int));
            if self.slots[i].cooldown_until_ms <= now_ms {
                count = count + 1;
            }
            i = i + 1;
        }
        assert(s.take(s.len() as int) =~= s);
        count
    }

    /// The number of places in the windows of the keys that are not cooling down.
    pub fn window_capacity(&self, now_ms: u64) -> (r: usize)
        ensures
            r == clipped(total_window(self.slots@, now_ms)),
    {
        let ghost s = self.slots@;
        let mut total: usize = 0;
        let mut i: usize = 0;
        assert(s.take(0) =~= Seq::empty());
        while i < self.slots.len()
            invariant
                s == self.slots@,
                i <= s.len(),
                total == clipped(total_window(s.take(i as int), now_ms)),
            decreases s.len() - i,
        {
            assert(s.take(i + 1).drop_last() =~= s.take(i as int));
            if self.slots[i].cooldown_until_ms <= now_ms {
                total = total.saturating_add(self.slots[i].max_in_flight);
            }
            i = i + 1;
        }
        assert(s.take(s.len() as int) =~= s);
        total
    }

    /// The number of requests that the keys can take now.
    pub fn available_permits(&self, now_ms: u64) -> (r: usize)
        ensures
            r == clipped(total_room(self.slots@, now_ms)),
    {
        let ghost s = self.slots@;
        let mut total: usize = 0;
        let mut i: usize = 0;
        assert(s.take(0) =~= Seq::empty());
        while i < self.slots.len()
            invariant
                s == self.slots@,
                i <= s.len(),
                total == clipped(total_room(s.take(i as int), now_ms)),
            decreases s.len() - i,
        {
            assert(s.take(i + 1).drop_last() =~= s.take(i as int));
            let slot: &KeySlot = &self.slots[i];
            if slot.cooldown_until_ms <= now_ms && slot.in_flight < slot.max_in_flight {
                total = total.saturating_add(slot.max_in_flight - slot.in_flight);
            }
            i = i + 1;
        }
        assert(s.take(s.len() as int) =~= s);
        total
    }

    /// Hands out the next key in turn that can take a request, and takes a place in its
    /// window.
    pub fn next_key_with_permit(&mut self, now_ms: u64) -> (r: Result<KeyLease, KeyAcquireError>)
        requires
            old(self).wf(),
        ensures
            final(self).wf(),
            match r {
                Ok(lease) => {
                    &&& first_free(
                        old(self).slots@,
                        old(self).cursor as int,
                        now_ms,
                        lease.idx as int,
                    )
                    &&& lease.key@ == old(self).slots@[lease.idx as int].key@
                    &&& lease.label == old(self).slots@[lease.idx as int].label
                    &&& final(self).slots@ == old(self).slots@.update(
                        lease.idx as int,
                        slot_taken(old(self).slots@[lease.idx as int]),
                    )
                    &&& final(self).cursor == ring(
                        lease.idx as int,
                        1,
                        old(self).slots@.len() as int,
                    )
                },
                Err(e) => {
                    &&& *final(self) == *old(self)
                    &&& forall|i: int|
                        0 <= i < old(self).slots@.len() ==> !slot_free(
                            #[trigger] old(self).slots@[i],
                            now_ms,
                        )
                    &&& e == (if old(self).slots@.len() == 0 {
                        KeyAcquireError::NoKeys
                    } else if active_slots(old(self).slots@, now_ms) == 0 {
                        KeyAcquireError::AllCoolingDown
                    } else {
                        KeyAcquireError::AllBusy
                    })
                },
            },
    {
        let ghost s = self.slots@;
        let n: usize = self.slots.len();
        if n == 0 {
            return Err(KeyAcquireError::NoKeys);
        }
        let start: usize = self.cursor;
        let mut step: usize = 0;
        while step < n
            invariant
                n == s.len(),
                s == self.slots@,
                start == self.cursor,
                *self == *old(self),
                start < n,
                step <= n,
                forall|k: int|
                    0 <= k < step ==> !slot_free(
                        s[#[trigger] ring(start as int, k, n as int)],
                        now_ms,
                    ),
            decreases n - step,
        {
            let idx: usize = if step < n - start {
                start + step
            } else {
                step - (n - start)
            };
            assert(idx == ring(start as int, step as int, n as int));
            if self.slots[idx].cooldown_until_ms <= now_ms && self.slots[idx].in_flight
                < self.slots[idx].max_in_flight {
                let lease: KeyLease = KeyLease {
                    key: self.slots[idx].key.clone(),
                    label: copy_label(&self.slots[idx].label),
                    idx,
                };
                let flights: usize = self.slots[idx].in_flight;
                self.slots[idx].in_flight = flights + 1;
                self.cursor = if idx + 1 < n {
                    idx + 1
                } else {
                    0
                };
                assert(self.slots@ =~= s.update(idx as int, slot_taken(s[idx as int])));
                return Ok(lease);
            }
            step = step + 1;
        }
        assert forall|i: int| 0 <= i < s.len() implies !slot_free(#[trigger] s[i], now_ms) by {
            let k = if i >= start {
                i - start
            } else {
                i - start + n
            };
            assert(ring(start as int, k, n as int) == i);
        }
        if self.active_count(now_ms) == 0 {
            Err(KeyAcquireError::AllCoolingDown)
        } else {
            Err(KeyAcquireError::AllBusy)
        }
    }

    /// Hands out the next key in turn that is not cooling down, without taking a place in its
    /// window.
    pub fn next_key(&mut self, now_ms: u64) -> (r: Option<(String, usize)>)
        requires
            old(self).wf(),
        ensures
            final(self).wf(),
            final(self).slots@ == old(self).slots@,
            match r {
                Some((key, idx)) => {
                    &&& first_active(
                        old(self).slots@,
                        old(self).cursor as int,
                        now_ms,
                        idx as int,
                    )
                    &&& key@ == old(self).slots@[idx as int].key@
                    &&& final(self).cursor == ring(idx as int, 1, old(self).slots@.len() as int)
                },
                None => {
                    &&& *final(self) == *old(self)
                    &&& forall|k: int|
                        0 <= k < old(self).slots@.len() ==> !slot_active(
                            #[trigger] old(self).slots@[k],
                            now_ms,
                        )
                },
            },
    {
        let ghost s = self.slots@;
        let n: usize = self.slots.len();
        let start: usize = self.cursor;
        let mut step: usize = 0;
        while step < n
            invariant
                n == s.len(),
                s == self.slots@,
                start == self.cursor,
                *self == *old(self),
                n > 0 ==> start < n,
                step <= n,
                forall|k: int|
                    0 <= k < step ==> !slot_active(
                        s[#[trigger] ring(start as int, k, n as int)],
                        now_ms,
                    ),
            decreases n - step,
        {
            let idx: usize = if step < n - start {
                start + step
            } else {
                step - (n - start)
            };
            assert(idx == ring(start as int, step as int, n as int));
            if self.slots[idx].cooldown_until_ms <= now_ms {
                self.cursor = if idx + 1 < n {
                    idx + 1
                } else {
                    0
                };
                return Some((self.slots[idx].key.clone(), idx));
            }
            step = step + 1;
        }
        assert forall|i: int| 0 <= i < s.len() implies !slot_active(#[trigger] s[i], now_ms) by {
            let k = if i >= start {
                i - start
            } else {
                i - start + n
            };
            assert(ring(start as int, k, n as int) == i);
        }
        None
    }

    /// Gives back the place that a lease took.
    pub fn release(&mut self, idx: usize)
        ensures
            final(self).cursor == old(self).cursor,
            idx >= old(self).slots@.len() ==> final(self).slots@ == old(self).slots@,
            idx < old(self).slots@.len() ==> final(self).slots@ == old(self).slots@.update(
                idx as int,
                slot_released(old(self).slots@[idx as int]),
            ),
    {
        let ghost s = self.slots@;
        if idx < self.slots.len() {
            let flights: usize = self.slots[idx].in_flight;
            self.slots[idx].in_flight = flights.saturating_sub(1);
            assert(self.slots@ =~= s.update(idx as int, slot_released(s[idx as int])));
        }
    }

    /// Lets a key cool down for `secs` seconds.
    pub fn mark_rate_limited(&mut self, idx: usize, secs: u64, now_ms: u64)
        ensures
            final(self).cursor == old(self).cursor,
            idx >= old(self).slots@.len() ==> final(self).slots@ == old(self).slots@,
            idx < old(self).slots@.len() ==> final(self).slots@ == old(self).slots@.update(
                idx as int,
                slot_cooling(old(self).slots@[idx as int], secs, now_ms),
            ),
    {
        let ghost s = self.slots@;
        if idx < self.slots.len() {
            let pause: u64 = if secs <= u64::MAX / 1000 {
                secs * 1000
            } else {
                u64::MAX
            };
            self.slots[idx].cooldown_until_ms = now_ms.saturating_add(pause);
            assert(self.slots@ =~= s.update(
                idx as int,
                slot_cooling(s[idx as int], secs, now_ms),
            ));
        }
    }

    /// Widens the window of a key that served a request, up to its configured size.
    pub fn record_success(&mut self, idx: usize)
        ensures
            final(self).cursor == old(self).cursor,
            idx >= old(self).slots@.len() ==> final(self).slots@ == old(self).slots@,
            idx < old(self).slots@.len() ==> final(self).slots@ == old(self).slots@.update(
                idx as int,
                slot_widened(old(self).slots@[idx as int]),
            ),
    {
        let ghost s = self.slots@;
        if idx < self.slots.len() {
            let window: usize = self.slots[idx].max_in_flight;
            if window < self.slots[idx].configured_max_in_flight {
                self.slots[idx].max_in_flight = window + 1;
            }
            assert(self.slots@ =~= s.update(idx as int, slot_widened(s[idx as int])));
        }
    }

    /// Narrows the window of a key that was turned away, down to one place.
    pub fn record_rate_limited(&mut self, idx: usize)
        ensures
            final(self).cursor == old(self).cursor,
            idx >= old(self).slots@.len() ==> final(self).slots@ == old(self).slots@,
            idx < old(self).slots@.len() ==> final(self).slots@ == old(self).slots@.update(
                idx as int,
                slot_narrowed(old(self).slots@[idx as int]),
            ),
    {
        let ghost s = self.slots@;
        if idx < self.slots.len() {
            let window: usize = self.slots[idx].max_in_flight;
            if window > 1 {
                self.slots[idx].max_in_flight = window - 1;
            }
            assert(self.slots@ =~= s.update(idx as int, slot_narrowed(s[idx as int])));
        }
    }
}

/// A key with one request less in flight.
pub open spec fn slot_released(slot: KeySlot) -> KeySlot {
    KeySlot {
        in_flight: if slot.in_flight > 0 {
            (slot.in_flight - 1) as usize
        } else {
            0
        },
        ..slot
    }
}

/// A key that cools down from `now_ms` on, as long as the clock can tell.
pub open spec fn slot_cooling(slot: KeySlot, secs: u64, now_ms: u64) -> KeySlot {
    KeySlot {
        cooldown_until_ms: if now_ms + secs * 1000 <= u64::MAX {
            (now_ms + secs * 1000) as u64
        } else {
            u64::MAX
        },
        ..slot
    }
}

/// A key with one more place in its window, up to its configured size.
pub open spec fn slot_widened(slot: KeySlot) -> KeySlot {
    KeySlot {
        max_in_flight: if slot.max_in_flight < slot.configured_max_in_flight {
            (slot.max_in_flight + 1) as usize
        } else {
            slot.max_in_flight
        },
        ..slot
    }
}

/// A key with one place less in its window, down to one.
pub open spec fn slot_narrowed(slot: KeySlot) -> KeySlot {
    KeySlot {
        max_in_flight: if slot.max_in_flight > 1 {
            (slot.max_in_flight - 1) as usize
        } else {
            slot.max_in_flight
        },
        ..slot
    }
}

/// A key that was told to pause is not handed out before its pause is over.
pub proof fn law_paused_key_rests(slot: KeySlot, secs: u64, now_ms: u64, later_ms: u64)
    requires
        now_ms <= later_ms < now_ms + secs * 1000,
        later_ms < u64::MAX,
    ensures
        !slot_active(slot_cooling(slot, secs, now_ms), later_ms),
        !slot_free(slot_cooling(slot, secs, now_ms), later_ms),
        slot_room(slot_cooling(slot, secs, now_ms), later_ms) == 0,
{
}

/// The window of a key stays between one place and its configured size, and never closes.
pub proof fn law_window_stays_in_bounds(slot: KeySlot)
    requires
        1 <= slot.max_in_flight <= slot.configured_max_in_flight,
    ensures
        1 <= slot_widened(slot).max_in_flight <= slot.configured_max_in_flight,
        1 <= slot_narrowed(slot).max_in_flight <= slot.configured_max_in_flight,
{
}

/// Copies an optional label.
pub fn copy_label(label: &Option<String>) -> (r: Option<String>)
    ensures
        r == *label,
{
    match label {
        Some(s) => Some(s.clone()),
        None => None,
    }
}

} // verus!
