//! Parallel transport: a multi-wire data bus with selector and write-enable
//! lines, and the pin-diffing bus drivers beneath it.

use vstd::prelude::*;

use crate::hal::OutputPin;
use crate::interface::{selector_ops, Interface, InterfaceKind, Packet};

verus! {

/// Bit `i` of an 8-bit word; bit 0 is the least significant.
pub open spec fn u8_bit(w: u8, i: int) -> bool {
    0 <= i < 8 && (w >> (i as u8)) & 1 == 1
}

/// Bit `i` of a 16-bit word; bit 0 is the least significant.
pub open spec fn u16_bit(w: u16, i: int) -> bool {
    0 <= i < 16 && (w >> (i as u16)) & 1 == 1
}

proof fn lemma_u8_bit_test(v: u8, i: u8)
    requires
        i < 8,
    ensures
        ((v & (1u8 << i)) != 0) == ((v >> i) & 1 == 1),
{
    assert(((v & (1u8 << i)) != 0) == ((v >> i) & 1 == 1)) by (bit_vector)
        requires
            i < 8,
    ;
}

proof fn lemma_u8_xor_bit(a: u8, b: u8, i: u8)
    requires
        i < 8,
    ensures
        (((a ^ b) >> i) & 1 == 1) == (((a >> i) & 1 == 1) != ((b >> i) & 1 == 1)),
{
    assert((((a ^ b) >> i) & 1 == 1) == (((a >> i) & 1 == 1) != ((b >> i) & 1 == 1)))
        by (bit_vector)
        requires
            i < 8,
    ;
}

proof fn lemma_u8_ones(i: u8)
    requires
        i < 8,
    ensures
        (0xffu8 >> i) & 1 == 1,
{
    assert((0xffu8 >> i) & 1 == 1) by (bit_vector)
        requires
            i < 8,
    ;
}

proof fn lemma_u16_bit_test(v: u16, i: u16)
    requires
        i < 16,
    ensures
        ((v & (1u16 << i)) != 0) == ((v >> i) & 1 == 1),
{
    assert(((v & (1u16 << i)) != 0) == ((v >> i) & 1 == 1)) by (bit_vector)
        requires
            i < 16,
    ;
}

proof fn lemma_u16_xor_bit(a: u16, b: u16, i: u16)
    requires
        i < 16,
    ensures
        (((a ^ b) >> i) & 1 == 1) == (((a >> i) & 1 == 1) != ((b >> i) & 1 == 1)),
{
    assert((((a ^ b) >> i) & 1 == 1) == (((a >> i) & 1 == 1) != ((b >> i) & 1 == 1)))
        by (bit_vector)
        requires
            i < 16,
    ;
}

proof fn lemma_u16_ones(i: u16)
    requires
        i < 16,
    ensures
        (0xffffu16 >> i) & 1 == 1,
{
    assert((0xffffu16 >> i) & 1 == 1) by (bit_vector)
        requires
            i < 16,
    ;
}

/// The last known level of a line, given its attempt history: the level of
/// the last acknowledged write, unknown after a failed attempt or before any
/// write.
pub open spec fn pin_level(ops: Seq<Option<bool>>) -> Option<bool> {
    if ops.len() == 0 {
        None
    } else {
        ops.last()
    }
}

/// Drives one line to the given level.
fn drive_pin<P: OutputPin>(pin: &mut P, high: bool) -> (r: Result<(), P::Error>)
    ensures
        r is Ok ==> final(pin).ops() == old(pin).ops().push(Some(high)),
        r is Err ==> final(pin).ops() == old(pin).ops().push(None),
{
    if high {
        pin.set_high()
    } else {
        pin.set_low()
    }
}

/// The data pins of a parallel bus.
///
/// `set_value` drives the word onto the pins so that bit `i` of the word
/// drives pin `i` (pin 0 is the least significant bit), skipping pins whose
/// level is already known to match. After any failure the remembered word is
/// invalidated, so the next call rewrites every pin.
pub trait OutputBus: Sized {
    /// `u8` for 8-bit buses, `u16` for 16-bit buses.
    type Word: Copy;

    /// Error reported by a failed pin write.
    type Error;

    /// Interface kind.
    const KIND: InterfaceKind;

    /// Number of data pins.
    spec fn num_pins() -> nat;

    /// Bit `i` of a word; pin `i` drives this bit.
    spec fn word_bit(w: Self::Word, i: int) -> bool;

    /// The word whose low eight bits are those of `b` and whose other bits
    /// are clear.
    spec fn spec_word_from_u8(b: u8) -> Self::Word;

    /// The word last known to be fully driven onto the pins, if any.
    spec fn last_word(&self) -> Option<Self::Word>;

    /// History of write attempts on data pin `i`.
    spec fn pin_ops(&self, i: int) -> Seq<Option<bool>>;

    /// History of words successfully set, oldest first. A repeated word is
    /// recorded even when no pin needs driving.
    spec fn words_set(&self) -> Seq<Self::Word>;

    /// Internal consistency: whenever a word is remembered, every pin's last
    /// known level is the corresponding bit of it.
    spec fn wf(&self) -> bool;

    /// Builds the word for a command or parameter byte.
    fn word_from_u8(b: u8) -> (w: Self::Word)
        ensures
            w == Self::spec_word_from_u8(b),
    ;

    /// Sets the output bus to a specific value, driving only the pins whose
    /// level is not already known to match.
    fn set_value(&mut self, value: Self::Word) -> (r: Result<(), Self::Error>)
        requires
            old(self).wf(),
        ensures
            final(self).wf(),
            r is Ok ==> final(self).last_word() == Some(value),
            r is Err ==> final(self).last_word() is None,
            r is Ok ==> final(self).words_set() == old(self).words_set().push(value),
            r is Err ==> final(self).words_set() == old(self).words_set(),
            // a repeated word costs no pin writes
            old(self).last_word() == Some(value) ==> r is Ok && forall|i: int|
                #[trigger] final(self).pin_ops(i) == old(self).pin_ops(i),
            // on success every pin drives its bit of the word
            r is Ok ==> forall|i: int|
                0 <= i < Self::num_pins() ==> pin_level(#[trigger] final(self).pin_ops(i))
                    == Some(Self::word_bit(value, i)),
            // with a remembered word, exactly the differing bits are written
            r is Ok && old(self).last_word() is Some ==> forall|i: int|
                0 <= i < Self::num_pins() ==> #[trigger] final(self).pin_ops(i) == (
                if Self::word_bit(old(self).last_word()->Some_0, i) == Self::word_bit(value, i) {
                    old(self).pin_ops(i)
                } else {
                    old(self).pin_ops(i).push(Some(Self::word_bit(value, i)))
                }),
            // with no remembered word, every pin is written
            r is Ok && old(self).last_word() is None ==> forall|i: int|
                0 <= i < Self::num_pins() ==> #[trigger] final(self).pin_ops(i)
                    == old(self).pin_ops(i).push(Some(Self::word_bit(value, i))),
            // a failure leaves each pin unwritten, written to its bit of the
            // word, or with one failed attempt
            r is Err ==> forall|i: int|
                #[trigger] final(self).pin_ops(i) == old(self).pin_ops(i)
                    || final(self).pin_ops(i) == old(self).pin_ops(i).push(
                    Some(Self::word_bit(value, i)),
                ) || final(self).pin_ops(i) == old(self).pin_ops(i).push(None),
    ;
}

/// Drives every pin whose bit is set in `changed` to its bit of `value`,
/// in order from the least significant pin, stopping at the first failure.
#[verifier::spinoff_prover]
fn set_pins8<P0, P1, P2, P3, P4, P5, P6, P7, E>(pins: &mut (P0, P1, P2, P3, P4, P5, P6, P7,), value: u8, changed: u8) -> (r: Result<(), E>) where
    P0: OutputPin<Error = E>,
    P1: OutputPin<Error = E>,
    P2: OutputPin<Error = E>,
    P3: OutputPin<Error = E>,
    P4: OutputPin<Error = E>,
    P5: OutputPin<Error = E>,
    P6: OutputPin<Error = E>,
    P7: OutputPin<Error = E>,

    ensures
        r is Ok ==> final(pins).0.ops() == (if u8_bit(changed, 0) {
            old(pins).0.ops().push(Some(u8_bit(value, 0)))
        } else {
            old(pins).0.ops()
        }),
        r is Ok ==> final(pins).1.ops() == (if u8_bit(changed, 1) {
            old(pins).1.ops().push(Some(u8_bit(value, 1)))
        } else {
            old(pins).1.ops()
        }),
        r is Ok ==> final(pins).2.ops() == (if u8_bit(changed, 2) {
            old(pins).2.ops().push(Some(u8_bit(value, 2)))
        } else {
            old(pins).2.ops()
        }),
        r is Ok ==> final(pins).3.ops() == (if u8_bit(changed, 3) {
            old(pins).3.ops().push(Some(u8_bit(value, 3)))
        } else {
            old(pins).3.ops()
        }),
        r is Ok ==> final(pins).4.ops() == (if u8_bit(changed, 4) {
            old(pins).4.ops().push(Some(u8_bit(value, 4)))
        } else {
            old(pins).4.ops()
        }),
        r is Ok ==> final(pins).5.ops() == (if u8_bit(changed, 5) {
            old(pins).5.ops().push(Some(u8_bit(value, 5)))
        } else {
            old(pins).5.ops()
        }),
        r is Ok ==> final(pins).6.ops() == (if u8_bit(changed, 6) {
            old(pins).6.ops().push(Some(u8_bit(value, 6)))
        } else {
            old(pins).6.ops()
        }),
        r is Ok ==> final(pins).7.ops() == (if u8_bit(changed, 7) {
            old(pins).7.ops().push(Some(u8_bit(value, 7)))
        } else {
            old(pins).7.ops()
        }),
        r is Err ==> final(pins).0.ops() == old(pins).0.ops() || final(pins).0.ops()
            == old(pins).0.ops().push(Some(u8_bit(value, 0))) || final(pins).0.ops() == old(
            pins,
        ).0.ops().push(None),
        r is Err ==> final(pins).1.ops() == old(pins).1.ops() || final(pins).1.ops()
            == old(pins).1.ops().push(Some(u8_bit(value, 1))) || final(pins).1.ops() == old(
            pins,
        ).1.ops().push(None),
        r is Err ==> final(pins).2.ops() == old(pins).2.ops() || final(pins).2.ops()
            == old(pins).2.ops().push(Some(u8_bit(value, 2))) || final(pins).2.ops() == old(
            pins,
        ).2.ops().push(None),
        r is Err ==> final(pins).3.ops() == old(pins).3.ops() || final(pins).3.ops()
            == old(pins).3.ops().push(Some(u8_bit(value, 3))) || final(pins).3.ops() == old(
            pins,
        ).3.ops().push(None),
        r is Err ==> final(pins).4.ops() == old(pins).4.ops() || final(pins).4.ops()
            == old(pins).4.ops().push(Some(u8_bit(value, 4))) || final(pins).4.ops() == old(
            pins,
        ).4.ops().push(None),
        r is Err ==> final(pins).5.ops() == old(pins).5.ops() || final(pins).5.ops()
            == old(pins).5.ops().push(Some(u8_bit(value, 5))) || final(pins).5.ops() == old(
            pins,
        ).5.ops().push(None),
        r is Err ==> final(pins).6.ops() == old(pins).6.ops() || final(pins).6.ops()
            == old(pins).6.ops().push(Some(u8_bit(value, 6))) || final(pins).6.ops() == old(
            pins,
        ).6.ops().push(None),
        r is Err ==> final(pins).7.ops() == old(pins).7.ops() || final(pins).7.ops()
            == old(pins).7.ops().push(Some(u8_bit(value, 7))) || final(pins).7.ops() == old(
            pins,
        ).7.ops().push(None),
{
    proof {
        lemma_u8_bit_test(changed, 0);
        lemma_u8_bit_test(value, 0);
    }
    if changed & (1u8 << 0) != 0 {
        match drive_pin(&mut pins.0, value & (1u8 << 0) != 0) {
            Err(e) => return Err(e),
            Ok(()) => {},
        }
    }
    proof {
        lemma_u8_bit_test(changed, 1);
        lemma_u8_bit_test(value, 1);
    }
    if changed & (1u8 << 1) != 0 {
        match drive_pin(&mut pins.1, value & (1u8 << 1) != 0) {
            Err(e) => return Err(e),
            Ok(()) => {},
        }
    }
    proof {
        lemma_u8_bit_test(changed, 2);
        lemma_u8_bit_test(value, 2);
    }
    if changed & (1u8 << 2) != 0 {
        match drive_pin(&mut pins.2, value & (1u8 << 2) != 0) {
            Err(e) => return Err(e),
            Ok(()) => {},
        }
    }
    proof {
        lemma_u8_bit_test(changed, 3);
        lemma_u8_bit_test(value, 3);
    }
    if changed & (1u8 << 3) != 0 {
        match drive_pin(&mut pins.3, value & (1u8 << 3) != 0) {
            Err(e) => return Err(e),
            Ok(()) => {},
        }
    }
    proof {
        lemma_u8_bit_test(changed, 4);
        lemma_u8_bit_test(value, 4);
    }
    if changed & (1u8 << 4) != 0 {
        match drive_pin(&mut pins.4, value & (1u8 << 4) != 0) {
            Err(e) => return Err(e),
            Ok(()) => {},
        }
    }
    proof {
        lemma_u8_bit_test(changed, 5);
        lemma_u8_bit_test(value, 5);
    }
    if changed & (1u8 << 5) != 0 {
        match drive_pin(&mut pins.5, value & (1u8 << 5) != 0) {
            Err(e) => return Err(e),
            Ok(()) => {},
        }
    }
    proof {
        lemma_u8_bit_test(changed, 6);
        lemma_u8_bit_test(value, 6);
    }
    if changed & (1u8 << 6) != 0 {
        match drive_pin(&mut pins.6, value & (1u8 << 6) != 0) {
            Err(e) => return Err(e),
            Ok(()) => {},
        }
    }
    proof {
        lemma_u8_bit_test(changed, 7);
        lemma_u8_bit_test(value, 7);
    }
    if changed & (1u8 << 7) != 0 {
        match drive_pin(&mut pins.7, value & (1u8 << 7) != 0) {
            Err(e) => return Err(e),
            Ok(()) => {},
        }
    }
    Ok(())
}

/// An 8-bit parallel bus over eight output pins.
///
/// The first pin of the tuple is the least significant bit.
pub struct Generic8BitBus<P0, P1, P2, P3, P4, P5, P6, P7> {
    pins: (P0, P1, P2, P3, P4, P5, P6, P7,),
    last: Option<u8>,
    words: Ghost<Seq<u8>>,
}

impl<P0, P1, P2, P3, P4, P5, P6, P7, E> Generic8BitBus<P0, P1, P2, P3, P4, P5, P6, P7> where
    P0: OutputPin<Error = E>,
    P1: OutputPin<Error = E>,
    P2: OutputPin<Error = E>,
    P3: OutputPin<Error = E>,
    P4: OutputPin<Error = E>,
    P5: OutputPin<Error = E>,
    P6: OutputPin<Error = E>,
    P7: OutputPin<Error = E>,
 {
    /// Creates a new bus. This does not change the state of the pins.
    pub fn new(pins: (P0, P1, P2, P3, P4, P5, P6, P7,)) -> (r: Self)
        ensures
            r.last_word() is None,
            r.words_set() == Seq::<u8>::empty(),
            r.wf(),
    {
        Generic8BitBus { pins, last: None, words: Ghost(Seq::empty()) }
    }

    /// Consumes the bus and returns the pins. This does not change the state
    /// of the pins.
    pub fn release(self) -> (r: (P0, P1, P2, P3, P4, P5, P6, P7,))
        ensures
            r.0.ops() == self.pin_ops(0),
            r.1.ops() == self.pin_ops(1),
            r.2.ops() == self.pin_ops(2),
            r.3.ops() == self.pin_ops(3),
            r.4.ops() == self.pin_ops(4),
            r.5.ops() == self.pin_ops(5),
            r.6.ops() == self.pin_ops(6),
            r.7.ops() == self.pin_ops(7),
    {
        self.pins
    }
}

impl<P0, P1, P2, P3, P4, P5, P6, P7, E> OutputBus for Generic8BitBus<P0, P1, P2, P3, P4, P5, P6, P7> where
    P0: OutputPin<Error = E>,
    P1: OutputPin<Error = E>,
    P2: OutputPin<Error = E>,
    P3: OutputPin<Error = E>,
    P4: OutputPin<Error = E>,
    P5: OutputPin<Error = E>,
    P6: OutputPin<Error = E>,
    P7: OutputPin<Error = E>,
 {
    type Word = u8;

    type Error = E;

    const KIND: InterfaceKind = InterfaceKind::Parallel8Bit;

    open spec fn num_pins() -> nat {
        8
    }

    open spec fn word_bit(w: u8, i: int) -> bool {
        u8_bit(w, i)
    }

    open spec fn spec_word_from_u8(b: u8) -> u8 {
        b as u8
    }

    closed spec fn last_word(&self) -> Option<u8> {
        self.last
    }

    closed spec fn pin_ops(&self, i: int) -> Seq<Option<bool>> {
        if i == 0 {
            self.pins.0.ops()
        } else if i == 1 {
            self.pins.1.ops()
        } else if i == 2 {
            self.pins.2.ops()
        } else if i == 3 {
            self.pins.3.ops()
        } else if i == 4 {
            self.pins.4.ops()
        } else if i == 5 {
            self.pins.5.ops()
        } else if i == 6 {
            self.pins.6.ops()
        } else if i == 7 {
            self.pins.7.ops()
        } else {
            Seq::empty()
        }
    }

    closed spec fn words_set(&self) -> Seq<u8> {
        self.words@
    }

    closed spec fn wf(&self) -> bool {
        match self.last {
            Some(w) => forall|i: int|
                0 <= i < 8 ==> pin_level(#[trigger] self.pin_ops(i)) == Some(u8_bit(w, i)),
            None => true,
        }
    }

    fn word_from_u8(b: u8) -> (w: u8) {
        b as u8
    }

    #[verifier::spinoff_prover]
    fn set_value(&mut self, value: u8) -> (r: Result<(), E>) {
        match self.last {
            Some(w) if w == value => {
                self.words = Ghost(self.words@.push(value));
                proof {
                    assert forall|i: int| 0 <= i < 8 implies pin_level(
                        #[trigger] self.pin_ops(i),
                    ) == Some(u8_bit(value, i)) by {
                        assert(self.pin_ops(i) == old(self).pin_ops(i));
                        assert(pin_level(old(self).pin_ops(i)) == Some(u8_bit(value, i)));
                    }
                }
                return Ok(());
            },
            _ => {},
        }
        let last = self.last;
        self.last = None;
        let changed: u8 = match last {
            Some(old_value) => value ^ old_value,
            None => 0xff,
        };
        proof {
            match last {
                Some(w) => {
                    assert forall|i: int| 0 <= i < 8 implies #[trigger] u8_bit(changed, i) == (
                    u8_bit(value, i) != u8_bit(w, i)) by {
                        lemma_u8_xor_bit(value, w, i as u8);
                    }
                },
                None => {
                    assert forall|i: int| 0 <= i < 8 implies #[trigger] u8_bit(changed, i) by {
                        lemma_u8_ones(i as u8);
                    }
                },
            }
        }
        let result = set_pins8(&mut self.pins, value, changed);
        match result {
            Err(e) => {
                proof {
                    assert forall|i: int|
                        #[trigger] self.pin_ops(i) == old(self).pin_ops(i) || self.pin_ops(i)
                            == old(self).pin_ops(i).push(Some(u8_bit(value, i))) || self.pin_ops(
                            i,
                        ) == old(self).pin_ops(i).push(None) by {
                        if i == 0 {
                            assert(self.pin_ops(0) == self.pins.0.ops());
                            assert(old(self).pin_ops(0) == old(self).pins.0.ops());
                        } else if i == 1 {
                            assert(self.pin_ops(1) == self.pins.1.ops());
                            assert(old(self).pin_ops(1) == old(self).pins.1.ops());
                        } else if i == 2 {
                            assert(self.pin_ops(2) == self.pins.2.ops());
                            assert(old(self).pin_ops(2) == old(self).pins.2.ops());
                        } else if i == 3 {
                            assert(self.pin_ops(3) == self.pins.3.ops());
                            assert(old(self).pin_ops(3) == old(self).pins.3.ops());
                        } else if i == 4 {
                            assert(self.pin_ops(4) == self.pins.4.ops());
                            assert(old(self).pin_ops(4) == old(self).pins.4.ops());
                        } else if i == 5 {
                            assert(self.pin_ops(5) == self.pins.5.ops());
                            assert(old(self).pin_ops(5) == old(self).pins.5.ops());
                        } else if i == 6 {
                            assert(self.pin_ops(6) == self.pins.6.ops());
                            assert(old(self).pin_ops(6) == old(self).pins.6.ops());
                        } else if i == 7 {
                            assert(self.pin_ops(7) == self.pins.7.ops());
                            assert(old(self).pin_ops(7) == old(self).pins.7.ops());
                        } else {
                        }
                    }
                }
                Err(e)
            },
            Ok(()) => {
                self.last = Some(value);
                self.words = Ghost(self.words@.push(value));
                proof {
                    assert forall|i: int| 0 <= i < 8 implies pin_level(
                        #[trigger] self.pin_ops(i),
                    ) == Some(u8_bit(value, i)) && self.pin_ops(i) == (if u8_bit(changed, i) {
                        old(self).pin_ops(i).push(Some(u8_bit(value, i)))
                    } else {
                        old(self).pin_ops(i)
                    }) by {
                        if i == 0 {
                            assert(self.pin_ops(0) == self.pins.0.ops());
                            assert(old(self).pin_ops(0) == old(self).pins.0.ops());
                        } else if i == 1 {
                            assert(self.pin_ops(1) == self.pins.1.ops());
                            assert(old(self).pin_ops(1) == old(self).pins.1.ops());
                        } else if i == 2 {
                            assert(self.pin_ops(2) == self.pins.2.ops());
                            assert(old(self).pin_ops(2) == old(self).pins.2.ops());
                        } else if i == 3 {
                            assert(self.pin_ops(3) == self.pins.3.ops());
                            assert(old(self).pin_ops(3) == old(self).pins.3.ops());
                        } else if i == 4 {
                            assert(self.pin_ops(4) == self.pins.4.ops());
                            assert(old(self).pin_ops(4) == old(self).pins.4.ops());
                        } else if i == 5 {
                            assert(self.pin_ops(5) == self.pins.5.ops());
                            assert(old(self).pin_ops(5) == old(self).pins.5.ops());
                        } else if i == 6 {
                            assert(self.pin_ops(6) == self.pins.6.ops());
                            assert(old(self).pin_ops(6) == old(self).pins.6.ops());
                        } else if i == 7 {
                            assert(self.pin_ops(7) == self.pins.7.ops());
                            assert(old(self).pin_ops(7) == old(self).pins.7.ops());
                        } else {
                        }
                    }
                }
                Ok(())
            },
        }
    }
}

/// Drives pins 0 to 7 of a 16-bit bus, as [`set_pins8`] does for an 8-bit one.
#[verifier::spinoff_prover]
fn set_pins16_low<P0, P1, P2, P3, P4, P5, P6, P7, E>(p0: &mut P0, p1: &mut P1, p2: &mut P2, p3: &mut P3, p4: &mut P4, p5: &mut P5, p6: &mut P6, p7: &mut P7, value: u16, changed: u16) -> (r: Result<(), E>) where
    P0: OutputPin<Error = E>,
    P1: OutputPin<Error = E>,
    P2: OutputPin<Error = E>,
    P3: OutputPin<Error = E>,
    P4: OutputPin<Error = E>,
    P5: OutputPin<Error = E>,
    P6: OutputPin<Error = E>,
    P7: OutputPin<Error = E>,

    ensures
        r is Ok ==> final(p0).ops() == (if u16_bit(changed, 0) {
            old(p0).ops().push(Some(u16_bit(value, 0)))
        } else {
            old(p0).ops()
        }),
        r is Ok ==> final(p1).ops() == (if u16_bit(changed, 1) {
            old(p1).ops().push(Some(u16_bit(value, 1)))
        } else {
            old(p1).ops()
        }),
        r is Ok ==> final(p2).ops() == (if u16_bit(changed, 2) {
            old(p2).ops().push(Some(u16_bit(value, 2)))
        } else {
            old(p2).ops()
        }),
        r is Ok ==> final(p3).ops() == (if u16_bit(changed, 3) {
            old(p3).ops().push(Some(u16_bit(value, 3)))
        } else {
            old(p3).ops()
        }),
        r is Ok ==> final(p4).ops() == (if u16_bit(changed, 4) {
            old(p4).ops().push(Some(u16_bit(value, 4)))
        } else {
            old(p4).ops()
        }),
        r is Ok ==> final(p5).ops() == (if u16_bit(changed, 5) {
            old(p5).ops().push(Some(u16_bit(value, 5)))
        } else {
            old(p5).ops()
        }),
        r is Ok ==> final(p6).ops() == (if u16_bit(changed, 6) {
            old(p6).ops().push(Some(u16_bit(value, 6)))
        } else {
            old(p6).ops()
        }),
        r is Ok ==> final(p7).ops() == (if u16_bit(changed, 7) {
            old(p7).ops().push(Some(u16_bit(value, 7)))
        } else {
            old(p7).ops()
        }),
        r is Err ==> final(p0).ops() == old(p0).ops() || final(p0).ops() == old(
            p0,
        ).ops().push(Some(u16_bit(value, 0))) || final(p0).ops() == old(p0).ops().push(None),
        r is Err ==> final(p1).ops() == old(p1).ops() || final(p1).ops() == old(
            p1,
        ).ops().push(Some(u16_bit(value, 1))) || final(p1).ops() == old(p1).ops().push(None),
        r is Err ==> final(p2).ops() == old(p2).ops() || final(p2).ops() == old(
            p2,
        ).ops().push(Some(u16_bit(value, 2))) || final(p2).ops() == old(p2).ops().push(None),
        r is Err ==> final(p3).ops() == old(p3).ops() || final(p3).ops() == old(
            p3,
        ).ops().push(Some(u16_bit(value, 3))) || final(p3).ops() == old(p3).ops().push(None),
        r is Err ==> final(p4).ops() == old(p4).ops() || final(p4).ops() == old(
            p4,
        ).ops().push(Some(u16_bit(value, 4))) || final(p4).ops() == old(p4).ops().push(None),
        r is Err ==> final(p5).ops() == old(p5).ops() || final(p5).ops() == old(
            p5,
        ).ops().push(Some(u16_bit(value, 5))) || final(p5).ops() == old(p5).ops().push(None),
        r is Err ==> final(p6).ops() == old(p6).ops() || final(p6).ops() == old(
            p6,
        ).ops().push(Some(u16_bit(value, 6))) || final(p6).ops() == old(p6).ops().push(None),
        r is Err ==> final(p7).ops() == old(p7).ops() || final(p7).ops() == old(
            p7,
        ).ops().push(Some(u16_bit(value, 7))) || final(p7).ops() == old(p7).ops().push(None),
{
    proof {
        lemma_u16_bit_test(changed, 0);
        lemma_u16_bit_test(value, 0);
    }
    if changed & (1u16 << 0) != 0 {
        match drive_pin(p0, value & (1u16 << 0) != 0) {
            Err(e) => return Err(e),
            Ok(()) => {},
        }
    }
    proof {
        lemma_u16_bit_test(changed, 1);
        lemma_u16_bit_test(value, 1);
    }
    if changed & (1u16 << 1) != 0 {
        match drive_pin(p1, value & (1u16 << 1) != 0) {
            Err(e) => return Err(e),
            Ok(()) => {},
        }
    }
    proof {
        lemma_u16_bit_test(changed, 2);
        lemma_u16_bit_test(value, 2);
    }
    if changed & (1u16 << 2) != 0 {
        match drive_pin(p2, value & (1u16 << 2) != 0) {
            Err(e) => return Err(e),
            Ok(()) => {},
        }
    }
    proof {
        lemma_u16_bit_test(changed, 3);
        lemma_u16_bit_test(value, 3);
    }
    if changed & (1u16 << 3) != 0 {
        match drive_pin(p3, value & (1u16 << 3) != 0) {
            Err(e) => return Err(e),
            Ok(()) => {},
        }
    }
    proof {
        lemma_u16_bit_test(changed, 4);
        lemma_u16_bit_test(value, 4);
    }
    if changed & (1u16 << 4) != 0 {
        match drive_pin(p4, value & (1u16 << 4) != 0) {
            Err(e) => return Err(e),
            Ok(()) => {},
        }
    }
    proof {
        lemma_u16_bit_test(changed, 5);
        lemma_u16_bit_test(value, 5);
    }
    if changed & (1u16 << 5) != 0 {
        match drive_pin(p5, value & (1u16 << 5) != 0) {
            Err(e) => return Err(e),
            Ok(()) => {},
        }
    }
    proof {
        lemma_u16_bit_test(changed, 6);
        lemma_u16_bit_test(value, 6);
    }
    if changed & (1u16 << 6) != 0 {
        match drive_pin(p6, value & (1u16 << 6) != 0) {
            Err(e) => return Err(e),
            Ok(()) => {},
        }
    }
    proof {
        lemma_u16_bit_test(changed, 7);
        lemma_u16_bit_test(value, 7);
    }
    if changed & (1u16 << 7) != 0 {
        match drive_pin(p7, value & (1u16 << 7) != 0) {
            Err(e) => return Err(e),
            Ok(()) => {},
        }
    }
    Ok(())
}

/// Drives pins 8 to 15 of a 16-bit bus, stopping at the first failure.
#[verifier::spinoff_prover]
fn set_pins16_high<P8, P9, P10, P11, P12, P13, P14, P15, E>(p8: &mut P8, p9: &mut P9, p10: &mut P10, p11: &mut P11, p12: &mut P12, p13: &mut P13, p14: &mut P14, p15: &mut P15, value: u16, changed: u16) -> (r: Result<(), E>) where
    P8: OutputPin<Error = E>,
    P9: OutputPin<Error = E>,
    P10: OutputPin<Error = E>,
    P11: OutputPin<Error = E>,
    P12: OutputPin<Error = E>,
    P13: OutputPin<Error = E>,
    P14: OutputPin<Error = E>,
    P15: OutputPin<Error = E>,

    ensures
        r is Ok ==> final(p8).ops() == (if u16_bit(changed, 8) {
            old(p8).ops().push(Some(u16_bit(value, 8)))
        } else {
            old(p8).ops()
        }),
        r is Ok ==> final(p9).ops() == (if u16_bit(changed, 9) {
            old(p9).ops().push(Some(u16_bit(value, 9)))
        } else {
            old(p9).ops()
        }),
        r is Ok ==> final(p10).ops() == (if u16_bit(changed, 10) {
            old(p10).ops().push(Some(u16_bit(value, 10)))
        } else {
            old(p10).ops()
        }),
        r is Ok ==> final(p11).ops() == (if u16_bit(changed, 11) {
            old(p11).ops().push(Some(u16_bit(value, 11)))
        } else {
            old(p11).ops()
        }),
        r is Ok ==> final(p12).ops() == (if u16_bit(changed, 12) {
            old(p12).ops().push(Some(u16_bit(value, 12)))
        } else {
            old(p12).ops()
        }),
        r is Ok ==> final(p13).ops() == (if u16_bit(changed, 13) {
            old(p13).ops().push(Some(u16_bit(value, 13)))
        } else {
            old(p13).ops()
        }),
        r is Ok ==> final(p14).ops() == (if u16_bit(changed, 14) {
            old(p14).ops().push(Some(u16_bit(value, 14)))
        } else {
            old(p14).ops()
        }),
        r is Ok ==> final(p15).ops() == (if u16_bit(changed, 15) {
            old(p15).ops().push(Some(u16_bit(value, 15)))
        } else {
            old(p15).ops()
        }),
        r is Err ==> final(p8).ops() == old(p8).ops() || final(p8).ops() == old(
            p8,
        ).ops().push(Some(u16_bit(value, 8))) || final(p8).ops() == old(p8).ops().push(None),
        r is Err ==> final(p9).ops() == old(p9).ops() || final(p9).ops() == old(
            p9,
        ).ops().push(Some(u16_bit(value, 9))) || final(p9).ops() == old(p9).ops().push(None),
        r is Err ==> final(p10).ops() == old(p10).ops() || final(p10).ops() == old(
            p10,
        ).ops().push(Some(u16_bit(value, 10))) || final(p10).ops() == old(p10).ops().push(None),
        r is Err ==> final(p11).ops() == old(p11).ops() || final(p11).ops() == old(
            p11,
        ).ops().push(Some(u16_bit(value, 11))) || final(p11).ops() == old(p11).ops().push(None),
        r is Err ==> final(p12).ops() == old(p12).ops() || final(p12).ops() == old(
            p12,
        ).ops().push(Some(u16_bit(value, 12))) || final(p12).ops() == old(p12).ops().push(None),
        r is Err ==> final(p13).ops() == old(p13).ops() || final(p13).ops() == old(
            p13,
        ).ops().push(Some(u16_bit(value, 13))) || final(p13).ops() == old(p13).ops().push(None),
        r is Err ==> final(p14).ops() == old(p14).ops() || final(p14).ops() == old(
            p14,
        ).ops().push(Some(u16_bit(value, 14))) || final(p14).ops() == old(p14).ops().push(None),
        r is Err ==> final(p15).ops() == old(p15).ops() || final(p15).ops() == old(
            p15,
        ).ops().push(Some(u16_bit(value, 15))) || final(p15).ops() == old(p15).ops().push(None),
{
    proof {
        lemma_u16_bit_test(changed, 8);
        lemma_u16_bit_test(value, 8);
    }
    if changed & (1u16 << 8) != 0 {
        match drive_pin(p8, value & (1u16 << 8) != 0) {
            Err(e) => return Err(e),
            Ok(()) => {},
        }
    }
    proof {
        lemma_u16_bit_test(changed, 9);
        lemma_u16_bit_test(value, 9);
    }
    if changed & (1u16 << 9) != 0 {
        match drive_pin(p9, value & (1u16 << 9) != 0) {
            Err(e) => return Err(e),
            Ok(()) => {},
        }
    }
    proof {
        lemma_u16_bit_test(changed, 10);
        lemma_u16_bit_test(value, 10);
    }
    if changed & (1u16 << 10) != 0 {
        match drive_pin(p10, value & (1u16 << 10) != 0) {
            Err(e) => return Err(e),
            Ok(()) => {},
        }
    }
    proof {
        lemma_u16_bit_test(changed, 11);
        lemma_u16_bit_test(value, 11);
    }
    if changed & (1u16 << 11) != 0 {
        match drive_pin(p11, value & (1u16 << 11) != 0) {
            Err(e) => return Err(e),
            Ok(()) => {},
        }
    }
    proof {
        lemma_u16_bit_test(changed, 12);
        lemma_u16_bit_test(value, 12);
    }
    if changed & (1u16 << 12) != 0 {
        match drive_pin(p12, value & (1u16 << 12) != 0) {
            Err(e) => return Err(e),
            Ok(()) => {},
        }
    }
    proof {
        lemma_u16_bit_test(changed, 13);
        lemma_u16_bit_test(value, 13);
    }
    if changed & (1u16 << 13) != 0 {
        match drive_pin(p13, value & (1u16 << 13) != 0) {
            Err(e) => return Err(e),
            Ok(()) => {},
        }
    }
    proof {
        lemma_u16_bit_test(changed, 14);
        lemma_u16_bit_test(value, 14);
    }
    if changed & (1u16 << 14) != 0 {
        match drive_pin(p14, value & (1u16 << 14) != 0) {
            Err(e) => return Err(e),
            Ok(()) => {},
        }
    }
    proof {
        lemma_u16_bit_test(changed, 15);
        lemma_u16_bit_test(value, 15);
    }
    if changed & (1u16 << 15) != 0 {
        match drive_pin(p15, value & (1u16 << 15) != 0) {
            Err(e) => return Err(e),
            Ok(()) => {},
        }
    }
    Ok(())
}

/// A 16-bit parallel bus over sixteen output pins.
///
/// The first pin of the tuple is the least significant bit.
pub struct Generic16BitBus<P0, P1, P2, P3, P4, P5, P6, P7, P8, P9, P10, P11, P12, P13, P14, P15> {
    pins: (P0, P1, P2, P3, P4, P5, P6, P7, P8, P9, P10, P11, P12, P13, P14, P15,),
    last: Option<u16>,
    words: Ghost<Seq<u16>>,
}

impl<P0, P1, P2, P3, P4, P5, P6, P7, P8, P9, P10, P11, P12, P13, P14, P15, E> Generic16BitBus<P0, P1, P2, P3, P4, P5, P6, P7, P8, P9, P10, P11, P12, P13, P14, P15> where
    P0: OutputPin<Error = E>,
    P1: OutputPin<Error = E>,
    P2: OutputPin<Error = E>,
    P3: OutputPin<Error = E>,
    P4: OutputPin<Error = E>,
    P5: OutputPin<Error = E>,
    P6: OutputPin<Error = E>,
    P7: OutputPin<Error = E>,
    P8: OutputPin<Error = E>,
    P9: OutputPin<Error = E>,
    P10: OutputPin<Error = E>,
    P11: OutputPin<Error = E>,
    P12: OutputPin<Error = E>,
    P13: OutputPin<Error = E>,
    P14: OutputPin<Error = E>,
    P15: OutputPin<Error = E>,
 {
    /// Creates a new bus. This does not change the state of the pins.
    pub fn new(pins: (P0, P1, P2, P3, P4, P5, P6, P7, P8, P9, P10, P11, P12, P13, P14, P15,)) -> (r: Self)
        ensures
            r.last_word() is None,
            r.words_set() == Seq::<u16>::empty(),
            r.wf(),
    {
        Generic16BitBus { pins, last: None, words: Ghost(Seq::empty()) }
    }

    /// Consumes the bus and returns the pins. This does not change the state
    /// of the pins.
    pub fn release(self) -> (r: (P0, P1, P2, P3, P4, P5, P6, P7, P8, P9, P10, P11, P12, P13, P14, P15,))
        ensures
            r.0.ops() == self.pin_ops(0),
            r.1.ops() == self.pin_ops(1),
            r.2.ops() == self.pin_ops(2),
            r.3.ops() == self.pin_ops(3),
            r.4.ops() == self.pin_ops(4),
            r.5.ops() == self.pin_ops(5),
            r.6.ops() == self.pin_ops(6),
            r.7.ops() == self.pin_ops(7),
            r.8.ops() == self.pin_ops(8),
            r.9.ops() == self.pin_ops(9),
            r.10.ops() == self.pin_ops(10),
            r.11.ops() == self.pin_ops(11),
            r.12.ops() == self.pin_ops(12),
            r.13.ops() == self.pin_ops(13),
            r.14.ops() == self.pin_ops(14),
            r.15.ops() == self.pin_ops(15),
    {
        self.pins
    }
}

impl<P0, P1, P2, P3, P4, P5, P6, P7, P8, P9, P10, P11, P12, P13, P14, P15, E> OutputBus for Generic16BitBus<P0, P1, P2, P3, P4, P5, P6, P7, P8, P9, P10, P11, P12, P13, P14, P15> where
    P0: OutputPin<Error = E>,
    P1: OutputPin<Error = E>,
    P2: OutputPin<Error = E>,
    P3: OutputPin<Error = E>,
    P4: OutputPin<Error = E>,
    P5: OutputPin<Error = E>,
    P6: OutputPin<Error = E>,
    P7: OutputPin<Error = E>,
    P8: OutputPin<Error = E>,
    P9: OutputPin<Error = E>,
    P10: OutputPin<Error = E>,
    P11: OutputPin<Error = E>,
    P12: OutputPin<Error = E>,
    P13: OutputPin<Error = E>,
    P14: OutputPin<Error = E>,
    P15: OutputPin<Error = E>,
 {
    type Word = u16;

    type Error = E;

    const KIND: InterfaceKind = InterfaceKind::Parallel16Bit;

    open spec fn num_pins() -> nat {
        16
    }

    open spec fn word_bit(w: u16, i: int) -> bool {
        u16_bit(w, i)
    }

    open spec fn spec_word_from_u8(b: u8) -> u16 {
        b as u16
    }

    closed spec fn last_word(&self) -> Option<u16> {
        self.last
    }

    closed spec fn pin_ops(&self, i: int) -> Seq<Option<bool>> {
        if i == 0 {
            self.pins.0.ops()
        } else if i == 1 {
            self.pins.1.ops()
        } else if i == 2 {
            self.pins.2.ops()
        } else if i == 3 {
            self.pins.3.ops()
        } else if i == 4 {
            self.pins.4.ops()
        } else if i == 5 {
            self.pins.5.ops()
        } else if i == 6 {
            self.pins.6.ops()
        } else if i == 7 {
            self.pins.7.ops()
        } else if i == 8 {
            self.pins.8.ops()
        } else if i == 9 {
            self.pins.9.ops()
        } else if i == 10 {
            self.pins.10.ops()
        } else if i == 11 {
            self.pins.11.ops()
        } else if i == 12 {
            self.pins.12.ops()
        } else if i == 13 {
            self.pins.13.ops()
        } else if i == 14 {
            self.pins.14.ops()
        } else if i == 15 {
            self.pins.15.ops()
        } else {
            Seq::empty()
        }
    }

    closed spec fn words_set(&self) -> Seq<u16> {
        self.words@
    }

    closed spec fn wf(&self) -> bool {
        match self.last {
            Some(w) => forall|i: int|
                0 <= i < 16 ==> pin_level(#[trigger] self.pin_ops(i)) == Some(u16_bit(w, i)),
            None => true,
        }
    }

    fn word_from_u8(b: u8) -> (w: u16) {
        b as u16
    }

    #[verifier::spinoff_prover]
    fn set_value(&mut self, value: u16) -> (r: Result<(), E>) {
        match self.last {
            Some(w) if w == value => {
                self.words = Ghost(self.words@.push(value));
                proof {
                    assert forall|i: int| 0 <= i < 16 implies pin_level(
                        #[trigger] self.pin_ops(i),
                    ) == Some(u16_bit(value, i)) by {
                        assert(self.pin_ops(i) == old(self).pin_ops(i));
                        assert(pin_level(old(self).pin_ops(i)) == Some(u16_bit(value, i)));
                    }
                }
                return Ok(());
            },
            _ => {},
        }
        let last = self.last;
        self.last = None;
        let changed: u16 = match last {
            Some(old_value) => value ^ old_value,
            None => 0xffff,
        };
        proof {
            match last {
                Some(w) => {
                    assert forall|i: int| 0 <= i < 16 implies #[trigger] u16_bit(changed, i) == (
                    u16_bit(value, i) != u16_bit(w, i)) by {
                        lemma_u16_xor_bit(value, w, i as u16);
                    }
                },
                None => {
                    assert forall|i: int| 0 <= i < 16 implies #[trigger] u16_bit(changed, i) by {
                        lemma_u16_ones(i as u16);
                    }
                },
            }
        }
        let result = match set_pins16_low(
            &mut self.pins.0,
            &mut self.pins.1,
            &mut self.pins.2,
            &mut self.pins.3,
            &mut self.pins.4,
            &mut self.pins.5,
            &mut self.pins.6,
            &mut self.pins.7,
            value,
            changed,
        ) {
            Err(e) => Err(e),
            Ok(()) => set_pins16_high(
                &mut self.pins.8,
                &mut self.pins.9,
                &mut self.pins.10,
                &mut self.pins.11,
                &mut self.pins.12,
                &mut self.pins.13,
                &mut self.pins.14,
                &mut self.pins.15,
                value,
                changed,
            ),
        };
        match result {
            Err(e) => {
                proof {
                    assert forall|i: int|
                        #[trigger] self.pin_ops(i) == old(self).pin_ops(i) || self.pin_ops(i)
                            == old(self).pin_ops(i).push(Some(u16_bit(value, i))) || self.pin_ops(
                            i,
                        ) == old(self).pin_ops(i).push(None) by {
                        if i == 0 {
                            assert(self.pin_ops(0) == self.pins.0.ops());
                            assert(old(self).pin_ops(0) == old(self).pins.0.ops());
                        } else if i == 1 {
                            assert(self.pin_ops(1) == self.pins.1.ops());
                            assert(old(self).pin_ops(1) == old(self).pins.1.ops());
                        } else if i == 2 {
                            assert(self.pin_ops(2) == self.pins.2.ops());
                            assert(old(self).pin_ops(2) == old(self).pins.2.ops());
                        } else if i == 3 {
                            assert(self.pin_ops(3) == self.pins.3.ops());
                            assert(old(self).pin_ops(3) == old(self).pins.3.ops());
                        } else if i == 4 {
                            assert(self.pin_ops(4) == self.pins.4.ops());
                            assert(old(self).pin_ops(4) == old(self).pins.4.ops());
                        } else if i == 5 {
                            assert(self.pin_ops(5) == self.pins.5.ops());
                            assert(old(self).pin_ops(5) == old(self).pins.5.ops());
                        } else if i == 6 {
                            assert(self.pin_ops(6) == self.pins.6.ops());
                            assert(old(self).pin_ops(6) == old(self).pins.6.ops());
                        } else if i == 7 {
                            assert(self.pin_ops(7) == self.pins.7.ops());
                            assert(old(self).pin_ops(7) == old(self).pins.7.ops());
                        } else if i == 8 {
                            assert(self.pin_ops(8) == self.pins.8.ops());
                            assert(old(self).pin_ops(8) == old(self).pins.8.ops());
                        } else if i == 9 {
                            assert(self.pin_ops(9) == self.pins.9.ops());
                            assert(old(self).pin_ops(9) == old(self).pins.9.ops());
                        } else if i == 10 {
                            assert(self.pin_ops(10) == self.pins.10.ops());
                            assert(old(self).pin_ops(10) == old(self).pins.10.ops());
                        } else if i == 11 {
                            assert(self.pin_ops(11) == self.pins.11.ops());
                            assert(old(self).pin_ops(11) == old(self).pins.11.ops());
                        } else if i == 12 {
                            assert(self.pin_ops(12) == self.pins.12.ops());
                            assert(old(self).pin_ops(12) == old(self).pins.12.ops());
                        } else if i == 13 {
                            assert(self.pin_ops(13) == self.pins.13.ops());
                            assert(old(self).pin_ops(13) == old(self).pins.13.ops());
                        } else if i == 14 {
                            assert(self.pin_ops(14) == self.pins.14.ops());
                            assert(old(self).pin_ops(14) == old(self).pins.14.ops());
                        } else if i == 15 {
                            assert(self.pin_ops(15) == self.pins.15.ops());
                            assert(old(self).pin_ops(15) == old(self).pins.15.ops());
                        } else {
                        }
                    }
                }
                Err(e)
            },
            Ok(()) => {
                self.last = Some(value);
                self.words = Ghost(self.words@.push(value));
                proof {
                    assert forall|i: int| 0 <= i < 16 implies pin_level(
                        #[trigger] self.pin_ops(i),
                    ) == Some(u16_bit(value, i)) && self.pin_ops(i) == (if u16_bit(changed, i) {
                        old(self).pin_ops(i).push(Some(u16_bit(value, i)))
                    } else {
                        old(self).pin_ops(i)
                    }) by {
                        if i == 0 {
                            assert(self.pin_ops(0) == self.pins.0.ops());
                            assert(old(self).pin_ops(0) == old(self).pins.0.ops());
                        } else if i == 1 {
                            assert(self.pin_ops(1) == self.pins.1.ops());
                            assert(old(self).pin_ops(1) == old(self).pins.1.ops());
                        } else if i == 2 {
                            assert(self.pin_ops(2) == self.pins.2.ops());
                            assert(old(self).pin_ops(2) == old(self).pins.2.ops());
                        } else if i == 3 {
                            assert(self.pin_ops(3) == self.pins.3.ops());
                            assert(old(self).pin_ops(3) == old(self).pins.3.ops());
                        } else if i == 4 {
                            assert(self.pin_ops(4) == self.pins.4.ops());
                            assert(old(self).pin_ops(4) == old(self).pins.4.ops());
                        } else if i == 5 {
                            assert(self.pin_ops(5) == self.pins.5.ops());
                            assert(old(self).pin_ops(5) == old(self).pins.5.ops());
                        } else if i == 6 {
                            assert(self.pin_ops(6) == self.pins.6.ops());
                            assert(old(self).pin_ops(6) == old(self).pins.6.ops());
                        } else if i == 7 {
                            assert(self.pin_ops(7) == self.pins.7.ops());
                            assert(old(self).pin_ops(7) == old(self).pins.7.ops());
                        } else if i == 8 {
                            assert(self.pin_ops(8) == self.pins.8.ops());
                            assert(old(self).pin_ops(8) == old(self).pins.8.ops());
                        } else if i == 9 {
                            assert(self.pin_ops(9) == self.pins.9.ops());
                            assert(old(self).pin_ops(9) == old(self).pins.9.ops());
                        } else if i == 10 {
                            assert(self.pin_ops(10) == self.pins.10.ops());
                            assert(old(self).pin_ops(10) == old(self).pins.10.ops());
                        } else if i == 11 {
                            assert(self.pin_ops(11) == self.pins.11.ops());
                            assert(old(self).pin_ops(11) == old(self).pins.11.ops());
                        } else if i == 12 {
                            assert(self.pin_ops(12) == self.pins.12.ops());
                            assert(old(self).pin_ops(12) == old(self).pins.12.ops());
                        } else if i == 13 {
                            assert(self.pin_ops(13) == self.pins.13.ops());
                            assert(old(self).pin_ops(13) == old(self).pins.13.ops());
                        } else if i == 14 {
                            assert(self.pin_ops(14) == self.pins.14.ops());
                            assert(old(self).pin_ops(14) == old(self).pins.14.ops());
                        } else if i == 15 {
                            assert(self.pin_ops(15) == self.pins.15.ops());
                            assert(old(self).pin_ops(15) == old(self).pins.15.ops());
                        } else {
                        }
                    }
                }
                Ok(())
            },
        }
    }
}

/// Parallel interface error, tagged by source.
#[derive(Clone, Copy, Debug)]
pub enum ParallelError<BUS, DC, WR> {
    /// Bus error.
    Bus(BUS),
    /// Data/command pin error.
    Dc(DC),
    /// Write pin error.
    Wr(WR),
}

/// The words a bus driver turns a sequence of bytes into.
pub open spec fn words_of_bytes<BUS: OutputBus>(bytes: Seq<u8>) -> Seq<BUS::Word> {
    bytes.map_values(|b: u8| BUS::spec_word_from_u8(b))
}

/// The words one command strobes onto a parallel bus: the instruction word,
/// then one word per parameter byte.
pub open spec fn command_words<BUS: OutputBus>(command: u8, args: Seq<u8>) -> Seq<BUS::Word> {
    seq![BUS::spec_word_from_u8(command)] + words_of_bytes::<BUS>(args)
}

/// The words a sequence of packets strobes onto a parallel bus: per command,
/// the instruction word and then one word per parameter byte; per data
/// slice, its words unmodified.
pub open spec fn strobed_words<BUS: OutputBus>(log: Seq<Packet<BUS::Word>>) -> Seq<BUS::Word>
    decreases log.len(),
{
    if log.len() == 0 {
        Seq::empty()
    } else {
        strobed_words::<BUS>(log.drop_last()) + (match log.last() {
            Packet::Command { instruction, parameters } => command_words::<BUS>(
                instruction,
                parameters,
            ),
            Packet::Data { words } => words,
        })
    }
}

/// The write-enable transitions that strobe `n` words: one low-high pulse
/// per word.
pub open spec fn strobe_pairs(n: nat) -> Seq<Option<bool>> {
    Seq::new(
        2 * n,
        |k: int|
            if k % 2 == 0 {
                Some(false)
            } else {
                Some(true)
            },
    )
}

/// One more strobed word appends one low-high pulse.
proof fn lemma_strobe_pairs_snoc(n: nat)
    ensures
        strobe_pairs(n + 1) == strobe_pairs(n) + seq![Some(false), Some(true)],
{
    assert(strobe_pairs(n + 1) =~= strobe_pairs(n) + seq![Some(false), Some(true)]);
}

/// Strobing `a` then `b` words pulses write-enable as strobing `a + b`.
proof fn lemma_strobe_pairs_add(a: nat, b: nat)
    ensures
        strobe_pairs(a + b) == strobe_pairs(a) + strobe_pairs(b),
{
    assert(strobe_pairs(a + b) =~= strobe_pairs(a) + strobe_pairs(b));
}

/// Parallel transport: an "8080" style write-only interface over an
/// [`OutputBus`], a data/command selector pin and a write-enable pin.
///
/// Every word is strobed: write-enable is pulled low, the bus is set, and
/// write-enable is driven high again, the value being sampled on that edge.
/// The inherent [`Self::send_command`] and [`Self::send_data_slice`] carry
/// the wire-level contract: a successful operation extends the bus, selector
/// and write-enable histories by exactly its strobe encoding and keeps the
/// transport healthy, so [`lemma_parallel_wire_format`] stays applicable
/// across any succeeding sequence of operations. After a failure the wire
/// state is unspecified and the transport stops claiming anything about it.
pub struct ParallelInterface<BUS: OutputBus, DC, WR> {
    bus: BUS,
    dc: DC,
    wr: WR,
    log: Ghost<Seq<Packet<BUS::Word>>>,
    bus_base: Ghost<Seq<BUS::Word>>,
    dc_base: Ghost<Seq<Option<bool>>>,
    wr_base: Ghost<Seq<Option<bool>>>,
    poisoned: Ghost<bool>,
}

impl<BUS, DC, WR> ParallelInterface<BUS, DC, WR> where
    BUS: OutputBus,
    DC: OutputPin,
    WR: OutputPin,
 {
    /// The words successfully set on the underlying bus.
    pub closed spec fn bus_words(&self) -> Seq<BUS::Word> {
        self.bus.words_set()
    }

    /// The underlying bus is internally consistent.
    pub closed spec fn bus_wf(&self) -> bool {
        self.bus.wf()
    }

    /// The bus word history at construction time.
    pub closed spec fn bus_base(&self) -> Seq<BUS::Word> {
        self.bus_base@
    }

    /// The write attempts on the selector pin.
    pub closed spec fn dc_ops(&self) -> Seq<Option<bool>> {
        self.dc.ops()
    }

    /// The selector history at construction time.
    pub closed spec fn dc_base(&self) -> Seq<Option<bool>> {
        self.dc_base@
    }

    /// The write attempts on the write-enable pin.
    pub closed spec fn wr_ops(&self) -> Seq<Option<bool>> {
        self.wr.ops()
    }

    /// The write-enable history at construction time.
    pub closed spec fn wr_base(&self) -> Seq<Option<bool>> {
        self.wr_base@
    }

    /// Whether some operation has failed since construction.
    pub closed spec fn poisoned(&self) -> bool {
        self.poisoned@
    }

    /// Create a new parallel interface over a bus, a data/command selector
    /// pin and a write-enable pin.
    pub fn new(bus: BUS, dc: DC, wr: WR) -> (r: Self)
        requires
            bus.wf(),
        ensures
            r.inv(),
            r.taken() == Seq::<Packet<BUS::Word>>::empty(),
            !r.poisoned(),
            r.bus_base() == bus.words_set(),
            r.dc_base() == dc.ops(),
            r.wr_base() == wr.ops(),
            r.bus_words() == bus.words_set(),
            r.dc_ops() == dc.ops(),
            r.wr_ops() == wr.ops(),
    {
        let r = ParallelInterface {
            bus_base: Ghost(bus.words_set()),
            dc_base: Ghost(dc.ops()),
            wr_base: Ghost(wr.ops()),
            bus,
            dc,
            wr,
            log: Ghost(Seq::empty()),
            poisoned: Ghost(false),
        };
        proof {
            assert(strobed_words::<BUS>(r.taken()) =~= Seq::<BUS::Word>::empty());
            assert(selector_ops(r.taken()) =~= Seq::<Option<bool>>::empty());
            assert(strobe_pairs(0) =~= Seq::<Option<bool>>::empty());
            assert(r.bus_words() =~= r.bus_base() + strobed_words::<BUS>(r.taken()));
            assert(r.dc_ops() =~= r.dc_base() + selector_ops(r.taken()));
            assert(r.wr_ops() =~= r.wr_base() + strobe_pairs(
                strobed_words::<BUS>(r.taken()).len(),
            ));
        }
        r
    }

    /// Consume the interface and return the bus and the two pins.
    pub fn release(self) -> (r: (BUS, DC, WR))
        ensures
            r.0.words_set() == self.bus_words(),
            r.1.ops() == self.dc_ops(),
            r.2.ops() == self.wr_ops(),
    {
        (self.bus, self.dc, self.wr)
    }

    /// Strobes a single word: write-enable low, bus value, write-enable
    /// high.
    fn send_word(&mut self, word: BUS::Word) -> (r: Result<
        (),
        ParallelError<BUS::Error, DC::Error, WR::Error>,
    >)
        requires
            old(self).bus.wf(),
        ensures
            final(self).bus.wf(),
            final(self).log == old(self).log,
            final(self).poisoned == old(self).poisoned,
            final(self).bus_base() == old(self).bus_base(),
            final(self).dc_base() == old(self).dc_base(),
            final(self).wr_base() == old(self).wr_base(),
            final(self).dc_ops() == old(self).dc_ops(),
            r is Ok ==> final(self).bus_words() == old(self).bus_words().push(word)
                && final(self).wr_ops() == old(self).wr_ops() + seq![Some(false), Some(true)],
            // a selector fault cannot come from a strobe
            !(r matches Err(ParallelError::Dc(_))),
            // a write-enable fault: before or after the bus was set
            r matches Err(ParallelError::Wr(_)) ==> (final(self).wr_ops() == old(self).wr_ops().push(None) && final(self).bus_words() == old(self).bus_words()) || (final(self).wr_ops() == old(self).wr_ops() + seq![Some(false), None] && final(self).bus_words()
                == old(self).bus_words().push(word)),
            // a bus fault: write-enable went low, the value never latched
            r matches Err(ParallelError::Bus(_)) ==> final(self).wr_ops() == old(self).wr_ops().push(Some(false)) && final(self).bus_words() == old(self).bus_words(),
    {
        match self.wr.set_low() {
            Err(e) => return Err(ParallelError::Wr(e)),
            Ok(()) => {},
        }
        match self.bus.set_value(word) {
            Err(e) => return Err(ParallelError::Bus(e)),
            Ok(()) => {},
        }
        match self.wr.set_high() {
            Err(e) => {
                proof {
                    assert(self.wr.ops() =~= old(self).wr.ops() + seq![Some(false), None]);
                }
                return Err(ParallelError::Wr(e));
            },
            Ok(()) => {},
        }
        proof {
            assert(self.wr.ops() =~= old(self).wr.ops() + seq![Some(false), Some(true)]);
        }
        Ok(())
    }

    /// Sends a command: selector low, strobe of the instruction word,
    /// selector high, then one strobe per parameter byte. The selector is
    /// left high (data mode), so following data needs no re-selection.
    /// Nothing is retried; the first failure aborts the remaining steps,
    /// and words already strobed stay sent.
    ///
    /// This inherent method carries the wire-level contract; the
    /// [`Interface`] impl delegates to it.
    pub fn send_command(&mut self, command: u8, args: &[u8]) -> (r: Result<
        (),
        ParallelError<BUS::Error, DC::Error, WR::Error>,
    >)
        requires
            old(self).inv(),
        ensures
            final(self).inv(),
            final(self).bus_base() == old(self).bus_base(),
            final(self).dc_base() == old(self).dc_base(),
            final(self).wr_base() == old(self).wr_base(),
            r is Ok ==> final(self).taken() == old(self).taken().push(
                Packet::Command { instruction: command, parameters: args@ },
            ),
            r is Err ==> final(self).taken() == old(self).taken(),
            // a successful command keeps the transport healthy and strobes
            // exactly the instruction word and one word per parameter byte,
            // with the selector going low then high around the instruction
            r is Ok ==> final(self).poisoned() == old(self).poisoned() && final(self).bus_words()
                == old(self).bus_words() + command_words::<BUS>(command, args@) && final(self).dc_ops() == old(self).dc_ops() + seq![Some(false), Some(true)] && final(self).wr_ops() == old(self).wr_ops() + strobe_pairs(1 + args@.len()),
            // on failure the bus received at most a prefix of the command's
            // words, in order
            r is Err ==> exists|k: int|
                0 <= k <= 1 + args@.len() && final(self).bus_words() == old(self).bus_words()
                    + #[trigger] command_words::<BUS>(command, args@).take(k),
            // a selector fault carries the Dc tag: either the first
            // transition failed before anything was strobed, or the second
            // failed after the instruction strobe
            r matches Err(ParallelError::Dc(_)) ==> (final(self).dc_ops() == old(self).dc_ops().push(None) && final(self).bus_words() == old(self).bus_words() && final(self).wr_ops() == old(self).wr_ops()) || (final(self).dc_ops() == old(self).dc_ops()
                + seq![Some(false), None] && final(self).bus_words() == old(self).bus_words().push(BUS::spec_word_from_u8(command)) && final(self).wr_ops() == old(self).wr_ops() + seq![Some(false), Some(true)]),
            // a strobe fault keeps its Wr or Bus tag; the selector history
            // shows whether the instruction or a parameter was being sent
            (r matches Err(ParallelError::Wr(_)) || r matches Err(ParallelError::Bus(_)))
                ==> final(self).dc_ops() == old(self).dc_ops().push(Some(false)) || final(self).dc_ops() == old(self).dc_ops() + seq![Some(false), Some(true)],
    {
        match self.dc.set_low() {
            Err(e) => {
                self.poisoned = Ghost(true);
                proof {
                    assert(command_words::<BUS>(command, args@).take(0) =~= Seq::<
                        BUS::Word,
                    >::empty());
                    assert(self.bus_words() =~= old(self).bus_words() + command_words::<BUS>(
                        command,
                        args@,
                    ).take(0));
                }
                return Err(ParallelError::Dc(e));
            },
            Ok(()) => {},
        }
        let word = BUS::word_from_u8(command);
        match self.send_word(word) {
            Err(e) => {
                self.poisoned = Ghost(true);
                proof {
                    assert(command_words::<BUS>(command, args@).take(0) =~= Seq::<
                        BUS::Word,
                    >::empty());
                    assert(command_words::<BUS>(command, args@).take(1) =~= seq![
                        BUS::spec_word_from_u8(command),
                    ]);
                    assert(old(self).bus_words() + command_words::<BUS>(command, args@).take(0)
                        =~= old(self).bus_words());
                    assert(old(self).bus_words() + command_words::<BUS>(command, args@).take(1)
                        =~= old(self).bus_words().push(BUS::spec_word_from_u8(command)));
                }
                return Err(e);
            },
            Ok(()) => {},
        }
        match self.dc.set_high() {
            Err(e) => {
                self.poisoned = Ghost(true);
                proof {
                    assert(self.dc.ops() =~= old(self).dc.ops() + seq![Some(false), None]);
                    assert(command_words::<BUS>(command, args@).take(1) =~= seq![
                        BUS::spec_word_from_u8(command),
                    ]);
                    assert(old(self).bus_words() + command_words::<BUS>(command, args@).take(1)
                        =~= old(self).bus_words().push(BUS::spec_word_from_u8(command)));
                }
                return Err(ParallelError::Dc(e));
            },
            Ok(()) => {},
        }
        let ghost words_after_command = self.bus.words_set();
        let ghost wr_after_command = self.wr.ops();
        proof {
            assert(self.dc.ops() =~= old(self).dc.ops() + seq![Some(false), Some(true)]);
        }
        let mut i: usize = 0;
        while i < args.len()
            invariant
                i <= args.len(),
                self.bus.wf(),
                self.log == old(self).log,
                self.poisoned == old(self).poisoned,
                self.bus_base() == old(self).bus_base(),
                self.dc_base() == old(self).dc_base(),
                self.wr_base() == old(self).wr_base(),
                self.dc.ops() == old(self).dc.ops() + seq![Some(false), Some(true)],
                words_after_command == old(self).bus_words().push(BUS::spec_word_from_u8(command)),
                wr_after_command == old(self).wr_ops() + seq![Some(false), Some(true)],
                self.bus.words_set() == words_after_command + words_of_bytes::<BUS>(
                    args@.take(i as int),
                ),
                self.wr.ops() == wr_after_command + strobe_pairs(i as nat),
            decreases args.len() - i,
        {
            let w = BUS::word_from_u8(args[i]);
            match self.send_word(w) {
                Err(e) => {
                    self.poisoned = Ghost(true);
                    proof {
                        let full = command_words::<BUS>(command, args@);
                        assert(full.take(1 + i as int) =~= seq![BUS::spec_word_from_u8(command)]
                            + words_of_bytes::<BUS>(args@.take(i as int)));
                        assert(full.take(2 + i as int) =~= full.take(1 + i as int).push(
                            BUS::spec_word_from_u8(args@[i as int]),
                        ));
                        assert(old(self).bus_words() + full.take(1 + i as int)
                            =~= words_after_command + words_of_bytes::<BUS>(args@.take(i as int)));
                        assert(old(self).bus_words() + full.take(2 + i as int) =~= (
                        words_after_command + words_of_bytes::<BUS>(args@.take(i as int))).push(
                            BUS::spec_word_from_u8(args@[i as int]),
                        ));
                    }
                    return Err(e);
                },
                Ok(()) => {},
            }
            proof {
                assert(words_of_bytes::<BUS>(args@.take(i + 1 as int)) =~= words_of_bytes::<BUS>(
                    args@.take(i as int),
                ).push(BUS::spec_word_from_u8(args@[i as int])));
                assert(self.bus.words_set() =~= words_after_command + words_of_bytes::<BUS>(
                    args@.take(i + 1 as int),
                ));
                lemma_strobe_pairs_snoc(i as nat);
                assert(self.wr.ops() =~= wr_after_command + strobe_pairs((i + 1) as nat));
            }
            i += 1;
        }
        let packet = Ghost(
            Packet::<BUS::Word>::Command { instruction: command, parameters: args@ },
        );
        self.log = Ghost(self.log@.push(packet@));
        proof {
            let prev = old(self).log@;
            assert(self.log@.drop_last() =~= prev);
            assert(args@.take(args@.len() as int) =~= args@);
            assert(self.bus.words_set() =~= old(self).bus_words() + command_words::<BUS>(
                command,
                args@,
            ));
            lemma_strobe_pairs_add(1, args@.len());
            assert(strobe_pairs(1) =~= seq![Some(false), Some(true)]);
            assert(self.wr.ops() =~= old(self).wr_ops() + strobe_pairs(1 + args@.len()));
            if !self.poisoned@ {
                assert(strobed_words::<BUS>(self.log@) =~= strobed_words::<BUS>(prev)
                    + command_words::<BUS>(command, args@));
                assert(selector_ops(self.log@) =~= selector_ops(prev) + seq![
                    Some(false),
                    Some(true),
                ]);
                lemma_strobe_pairs_add(strobed_words::<BUS>(prev).len(), 1 + args@.len());
                assert(self.bus.words_set() =~= self.bus_base@ + strobed_words::<BUS>(self.log@));
                assert(self.dc.ops() =~= self.dc_base@ + selector_ops(self.log@));
                assert(self.wr.ops() =~= self.wr_base@ + strobe_pairs(
                    strobed_words::<BUS>(self.log@).len(),
                ));
            }
        }
        Ok(())
    }

    /// Strobes each data word in slice order, the selector untouched (it
    /// stays in data mode from the preceding command). Iteration stops at
    /// the first failure; words already strobed stay sent.
    ///
    /// This inherent method carries the wire-level contract; the
    /// [`Interface`] impl delegates to it.
    pub fn send_data_slice(&mut self, data: &[BUS::Word]) -> (r: Result<
        (),
        ParallelError<BUS::Error, DC::Error, WR::Error>,
    >)
        requires
            old(self).inv(),
        ensures
            final(self).inv(),
            final(self).bus_base() == old(self).bus_base(),
            final(self).dc_base() == old(self).dc_base(),
            final(self).wr_base() == old(self).wr_base(),
            r is Ok ==> final(self).taken() == old(self).taken().push(
                Packet::Data { words: data@ },
            ),
            r is Err ==> final(self).taken() == old(self).taken(),
            // a successful data slice keeps the transport healthy and
            // strobes exactly the caller's words, in order
            r is Ok ==> final(self).poisoned() == old(self).poisoned() && final(self).bus_words()
                == old(self).bus_words() + data@ && final(self).wr_ops() == old(self).wr_ops()
                + strobe_pairs(data@.len()),
            // the selector is never touched
            final(self).dc_ops() == old(self).dc_ops(),
            // only a strobe can fail
            !(r matches Err(ParallelError::Dc(_))),
            // on failure the bus received at most a prefix of the words
            r is Err ==> exists|k: int|
                0 <= k <= data@.len() && final(self).bus_words() == old(self).bus_words()
                    + #[trigger] data@.take(k),
    {
        let ghost words_at_entry = self.bus.words_set();
        let ghost wr_at_entry = self.wr.ops();
        let mut i: usize = 0;
        while i < data.len()
            invariant
                i <= data.len(),
                self.bus.wf(),
                self.log == old(self).log,
                self.poisoned == old(self).poisoned,
                self.bus_base() == old(self).bus_base(),
                self.dc_base() == old(self).dc_base(),
                self.wr_base() == old(self).wr_base(),
                self.dc.ops() == old(self).dc.ops(),
                words_at_entry == old(self).bus_words(),
                wr_at_entry == old(self).wr_ops(),
                self.bus.words_set() == words_at_entry + data@.take(i as int),
                self.wr.ops() == wr_at_entry + strobe_pairs(i as nat),
            decreases data.len() - i,
        {
            let w = data[i];
            match self.send_word(w) {
                Err(e) => {
                    self.poisoned = Ghost(true);
                    proof {
                        assert(data@.take(i + 1 as int) =~= data@.take(i as int).push(
                            data@[i as int],
                        ));
                        assert(old(self).bus_words() + data@.take(i as int) =~= self.bus.words_set()
                            || old(self).bus_words() + data@.take(i + 1 as int)
                            =~= self.bus.words_set());
                    }
                    return Err(e);
                },
                Ok(()) => {},
            }
            proof {
                assert(data@.take(i + 1 as int) =~= data@.take(i as int).push(data@[i as int]));
                assert(self.bus.words_set() =~= words_at_entry + data@.take(i + 1 as int));
                lemma_strobe_pairs_snoc(i as nat);
                assert(self.wr.ops() =~= wr_at_entry + strobe_pairs((i + 1) as nat));
            }
            i += 1;
        }
        let packet = Ghost(Packet::<BUS::Word>::Data { words: data@ });
        self.log = Ghost(self.log@.push(packet@));
        proof {
            let prev = old(self).log@;
            assert(self.log@.drop_last() =~= prev);
            assert(data@.take(data@.len() as int) =~= data@);
            assert(self.bus.words_set() =~= old(self).bus_words() + data@);
            assert(self.wr.ops() =~= old(self).wr_ops() + strobe_pairs(data@.len()));
            if !self.poisoned@ {
                assert(strobed_words::<BUS>(self.log@) =~= strobed_words::<BUS>(prev) + data@);
                assert(selector_ops(self.log@) =~= selector_ops(prev));
                lemma_strobe_pairs_add(strobed_words::<BUS>(prev).len(), data@.len());
                assert(self.bus.words_set() =~= self.bus_base@ + strobed_words::<BUS>(self.log@));
                assert(self.dc.ops() =~= self.dc_base@ + selector_ops(self.log@));
                assert(self.wr.ops() =~= self.wr_base@ + strobe_pairs(
                    strobed_words::<BUS>(self.log@).len(),
                ));
            }
        }
        Ok(())
    }
}

impl<BUS, DC, WR> Interface for ParallelInterface<BUS, DC, WR> where
    BUS: OutputBus,
    DC: OutputPin,
    WR: OutputPin,
 {
    type Word = BUS::Word;

    type Error = ParallelError<BUS::Error, DC::Error, WR::Error>;

    const KIND: InterfaceKind = BUS::KIND;

    open spec fn inv(&self) -> bool {
        &&& self.bus_wf()
        &&& !self.poisoned() ==> {
            &&& self.bus_words() == self.bus_base() + strobed_words::<BUS>(self.taken())
            &&& self.dc_ops() == self.dc_base() + selector_ops(self.taken())
            &&& self.wr_ops() == self.wr_base() + strobe_pairs(
                strobed_words::<BUS>(self.taken()).len(),
            )
        }
    }

    closed spec fn taken(&self) -> Seq<Packet<BUS::Word>> {
        self.log@
    }

    fn send_command(&mut self, command: u8, args: &[u8]) -> (r: Result<
        (),
        ParallelError<BUS::Error, DC::Error, WR::Error>,
    >) {
        self.send_command(command, args)
    }

    fn send_data_slice(&mut self, data: &[BUS::Word]) -> (r: Result<
        (),
        ParallelError<BUS::Error, DC::Error, WR::Error>,
    >) {
        self.send_data_slice(data)
    }
}

/// Law: the parallel wire format. As long as no operation of a parallel
/// transport has failed, the words set on its bus are exactly the strobe
/// encoding of the completed packets — per command, the instruction word and
/// then one word per parameter byte; per data slice, its words unmodified —
/// the selector was driven low before each instruction word and high before
/// its parameters, and write-enable pulsed low then high once per word. The
/// success clauses of [`ParallelInterface::send_command`] and
/// [`ParallelInterface::send_data_slice`] preserve `!poisoned()`, so this
/// law holds after any sequence of successful operations.
pub proof fn lemma_parallel_wire_format<BUS, DC, WR>(
    transport: &ParallelInterface<BUS, DC, WR>,
) where BUS: OutputBus, DC: OutputPin, WR: OutputPin
    requires
        transport.inv(),
        !transport.poisoned(),
    ensures
        transport.bus_words() == transport.bus_base() + strobed_words::<BUS>(transport.taken()),
        transport.dc_ops() == transport.dc_base() + selector_ops(transport.taken()),
        transport.wr_ops() == transport.wr_base() + strobe_pairs(
            strobed_words::<BUS>(transport.taken()).len(),
        ),
{
}

} // verus!
