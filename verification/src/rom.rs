//! The instruction memory: the same recursive address-decoded tree as the
//! RAM, written only while a program image is loaded, and its flat-array
//! counterpart. A program image is plain text, one instruction per line,
//! exactly sixteen `'0'`/`'1'` characters, most significant bit first.
use vstd::prelude::*;
use vstd::string::StrSliceExecFns;

use crate::boolean_arithmetic::add16;
use crate::boolean_logic::{
    dmux8way, dmux8way_built_in, mux8way16, mux8way16_built_in, Binary, Word,
};
use crate::helper::{bit15_to_bit12, u16_to_word, word_to_bit15};
use crate::model::{val12, val15, val16, val3, zeros};
use crate::sequential_circuit::{ram4k_view_lens, RAM4K, RAM4KBuiltIn};

verus! {

/// Why a program image was refused: a line that is not sixteen `'0'`/`'1'`
/// characters, a program longer than the ROM, or (for the decoding
/// backend) an instruction word outside the decodable instruction set.
#[derive(Debug, Clone, Copy, PartialEq, Eq, Structural)]
pub enum LoadError {
    MalformedLine,
    CapacityExceeded,
    UnsupportedInstruction,
}

/// A well-formed program line: exactly sixteen `'0'` or `'1'` characters.
pub open spec fn line_ok(s: Seq<char>) -> bool {
    s.len() == 16 && (forall|i: int| 0 <= i < 16 ==> s[i] == '0' || s[i] == '1')
}

/// The word a program line denotes: the character at position `15 - i`
/// gives bit `i`, so the text reads most significant bit first.
pub open spec fn parse_line(s: Seq<char>) -> Seq<bool> {
    Seq::new(16, |i: int| s[15 - i] == '1')
}

/// The ROM contents after the first `k` lines of an image were written
/// over the previous contents.
pub open spec fn loaded_prefix(orig: Seq<Seq<bool>>, lines: Seq<&str>, k: int) -> Seq<Seq<bool>> {
    Seq::new(
        32768,
        |j: int|
            if j < k {
                parse_line(lines[j]@)
            } else {
                orig[j]
            },
    )
}

/// Writing line `k` over the first `k` loaded lines gives the first
/// `k + 1` loaded lines.
proof fn lemma_load_step(orig: Seq<Seq<bool>>, lines: Seq<&str>, k: int)
    requires
        0 <= k < lines.len(),
        k < 32768,
    ensures
        loaded_prefix(orig, lines, k).update(k, parse_line(lines[k]@)) == loaded_prefix(
            orig,
            lines,
            k + 1,
        ),
{
    assert(loaded_prefix(orig, lines, k).update(k, parse_line(lines[k]@)) =~= loaded_prefix(
        orig,
        lines,
        k + 1,
    ));
}

/// Updating the same slot twice with the same word is one update.
proof fn lemma_double_update(s: Seq<Seq<bool>>, i: int, v: Seq<bool>)
    requires
        0 <= i < s.len(),
    ensures
        s.update(i, v).update(i, v) == s.update(i, v),
{
    assert(s.update(i, v).update(i, v) =~= s.update(i, v));
}

/// One program line turned into an instruction word, most significant
/// character first.
fn parse_instruction(line: &str) -> (r: Word)
    requires
        line_ok(line@),
    ensures
        r@ == parse_line(line@),
{
    let mut word: Word = [false;16];
    for i in 0..16
        invariant
            forall|j: int| 0 <= j < i ==> (#[trigger] word@[j]) == (line@[15 - j] == '1'),
    {
        let c = line.get_char(15 - i);
        word[i] = c == '1';
    }
    proof {
        assert(word@ =~= parse_line(line@));
    }
    word
}

/// Whether a program line is exactly sixteen `'0'`/`'1'` characters.
pub(crate) fn check_line(line: &str) -> (r: bool)
    ensures
        r == line_ok(line@),
{
    if line.unicode_len() != 16 {
        return false;
    }
    for i in 0..16
        invariant
            line@.len() == 16,
            forall|j: int| 0 <= j < i ==> line@[j] == '0' || line@[j] == '1',
    {
        let c = line.get_char(i);
        if c != '0' && c != '1' {
            return false;
        }
    }
    true
}

/// 32768 instruction words: eight RAM4K blocks selected by the top three
/// address bits, write-once-then-read-many.
#[derive(Debug, Clone, Copy)]
pub struct ROM32K {
    r0: RAM4K,
    r1: RAM4K,
    r2: RAM4K,
    r3: RAM4K,
    r4: RAM4K,
    r5: RAM4K,
    r6: RAM4K,
    r7: RAM4K,
}

impl ROM32K {
    /// The block that backs a given top-three-bit selector.
    pub closed spec fn block(self, k: int) -> RAM4K {
        if k == 0 {
            self.r0
        } else if k == 1 {
            self.r1
        } else if k == 2 {
            self.r2
        } else if k == 3 {
            self.r3
        } else if k == 4 {
            self.r4
        } else if k == 5 {
            self.r5
        } else if k == 6 {
            self.r6
        } else {
            self.r7
        }
    }

    /// The stored instruction words before the tick.
    pub closed spec fn past(self) -> Seq<Seq<bool>> {
        Seq::new(32768, |j: int| self.block(j / 4096).past()[j % 4096])
    }

    /// The stored instruction words after the last commit.
    pub closed spec fn cur(self) -> Seq<Seq<bool>> {
        Seq::new(32768, |j: int| self.block(j / 4096).cur()[j % 4096])
    }

    pub fn new() -> (r: Self)
        ensures
            r.past() == Seq::new(32768, |j: int| zeros(16)),
            r.cur() == Seq::new(32768, |j: int| zeros(16)),
    {
        let r = ROM32K {
            r0: RAM4K::new(),
            r1: RAM4K::new(),
            r2: RAM4K::new(),
            r3: RAM4K::new(),
            r4: RAM4K::new(),
            r5: RAM4K::new(),
            r6: RAM4K::new(),
            r7: RAM4K::new(),
        };
        proof {
            assert(r.past() =~= Seq::new(32768, |j: int| zeros(16)));
            assert(r.cur() =~= Seq::new(32768, |j: int| zeros(16)));
        }
        r
    }

    pub fn update(&mut self, clk: Binary, input: Word, address: [Binary; 15])
        ensures
            final(self).past() == (if clk {
                old(self).cur()
            } else {
                old(self).past()
            }),
            final(self).cur() == (if clk {
                old(self).cur().update(val15(address@) as int, input@)
            } else {
                old(self).cur()
            }),
    {
        let address_low = bit15_to_bit12(address);
        let address_high = [address[12], address[13], address[14]];
        let (a, b, c, d, e, f, g, h) = dmux8way(true, address_high);
        self.r0.update(clk, input, a, address_low);
        self.r1.update(clk, input, b, address_low);
        self.r2.update(clk, input, c, address_low);
        self.r3.update(clk, input, d, address_low);
        self.r4.update(clk, input, e, address_low);
        self.r5.update(clk, input, f, address_low);
        self.r6.update(clk, input, g, address_low);
        self.r7.update(clk, input, h, address_low);
        proof {
            let lo = val12(address_low@) as int;
            let hi = val3(address_high@) as int;
            assert(val15(address@) == lo + 4096 * hi);
            let wa = val15(address@) as int;
            crate::model::lemma_place_value(val15(address@), 4096, val3(address_high@), val12(address_low@));
            assert forall|j: int| 0 <= j < 32768 implies final(self).past()[j] == (if clk {
                old(self).cur()
            } else {
                old(self).past()
            })[j] by {
                crate::model::lemma_grid_split(j, 4096);
                let bk = j / 4096;
                let s = j % 4096;
                ram4k_view_lens(old(self).block(bk));
                assert(final(self).past()[j] == final(self).block(bk).past()[s]);
            }
            assert(final(self).past() =~= (if clk {
                old(self).cur()
            } else {
                old(self).past()
            }));
            assert forall|j: int| 0 <= j < 32768 implies final(self).cur()[j] == (if clk {
                old(self).cur().update(wa, input@)
            } else {
                old(self).cur()
            })[j] by {
                crate::model::lemma_grid_split(j, 4096);
                let bk = j / 4096;
                let s = j % 4096;
                ram4k_view_lens(old(self).block(bk));
                assert(final(self).cur()[j] == final(self).block(bk).cur()[s]);
                assert(old(self).cur()[j] == old(self).block(bk).cur()[s]);
                if clk {
                    if bk == hi {
                        assert(final(self).block(bk).cur() == old(self).block(bk).cur().update(
                            lo,
                            input@,
                        ));
                        if j == wa {
                            assert(s == lo);
                        } else {
                            assert(s != lo);
                        }
                    } else {
                        assert(final(self).block(bk).cur() == old(self).block(bk).cur());
                        assert(j != wa);
                    }
                } else {
                    assert(final(self).block(bk).cur() == old(self).block(bk).cur());
                }
            }
            if clk {
                assert(final(self).cur() =~= old(self).cur().update(
                    val15(address@) as int,
                    input@,
                ));
            } else {
                assert(final(self).cur() =~= old(self).cur());
            }
        }
    }

    #[verifier::rlimit(100)]
    pub fn get(&self, clk: Binary, address: [Binary; 15]) -> (r: Word)
        ensures
            r@ == (if clk {
                self.past()
            } else {
                self.cur()
            })[val15(address@) as int],
    {
        let address_low = bit15_to_bit12(address);
        let address_high = [address[12], address[13], address[14]];
        let r = mux8way16(
            self.r0.get(clk, address_low),
            self.r1.get(clk, address_low),
            self.r2.get(clk, address_low),
            self.r3.get(clk, address_low),
            self.r4.get(clk, address_low),
            self.r5.get(clk, address_low),
            self.r6.get(clk, address_low),
            self.r7.get(clk, address_low),
            address_high,
        );
        proof {
            let lo = val12(address_low@) as int;
            let hi = val3(address_high@) as int;
            assert(val15(address@) == lo + 4096 * hi);
            crate::model::lemma_place_value(
                val15(address@),
                4096,
                val3(address_high@),
                val12(address_low@),
            );
        }
        r
    }

    /// Loads a program image, line `k` into address `k`. All-or-nothing: a
    /// refused image leaves every word as it was. Each accepted line is
    /// committed with two writes so that both clock phases read it back.
    /// The 15-bit ROM address that holds line `k` of an image.
    fn addr_of(k: u16) -> (r: [Binary; 15])
        requires
            k < 32768,
        ensures
            val15(r@) == k,
    {
        let r = word_to_bit15(u16_to_word(k));
        proof {
            crate::model::lemma_place_value(k as nat, 32768, 0, k as nat);
        }
        r
    }

    /// Commits one word with two writes, so that both clock phases read
    /// it back.
    fn write_word(&mut self, input: Word, address: [Binary; 15])
        ensures
            final(self).cur() == old(self).cur().update(val15(address@) as int, input@),
            final(self).past() == final(self).cur(),
    {
        self.update(true, input, address);
        self.update(true, input, address);
        proof {
            lemma_double_update(old(self).cur(), val15(address@) as int, input@);
        }
    }

    /// Writes every line of a checked image, each line twice so that
    /// both clock phases read it back.
    #[verifier::rlimit(100)]
    #[verifier::spinoff_prover]
    fn write_image(&mut self, instructions: &Vec<&str>)
        requires
            instructions@.len() <= 32768,
            forall|j: int| 0 <= j < instructions@.len() ==> line_ok(#[trigger] instructions@[j]@),
        ensures
            final(self).cur() == loaded_prefix(
                old(self).cur(),
                instructions@,
                instructions@.len() as int,
            ),
            instructions@.len() == 0 ==> final(self).past() == old(self).past(),
            instructions@.len() > 0 ==> final(self).past() == final(self).cur(),
    {
        let n = instructions.len();
        proof {
            assert(self.cur() =~= loaded_prefix(old(self).cur(), instructions@, 0));
        }
        for k in 0..n
            invariant
                n == instructions@.len() <= 32768,
                forall|j: int| 0 <= j < n ==> line_ok(#[trigger] instructions@[j]@),
                self.cur() == loaded_prefix(old(self).cur(), instructions@, k as int),
                k == 0 ==> self.past() == old(self).past(),
                k > 0 ==> self.past() == self.cur(),
        {
            let word = parse_instruction(instructions[k]);
            let address = Self::addr_of(k as u16);
            proof {
                lemma_load_step(old(self).cur(), instructions@, k as int);
            }
            self.write_word(word, address);
        }
    }

    /// Loads a program image, line `k` into address `k`. All-or-nothing: a
    /// refused image leaves every word as it was. Each accepted line is
    /// committed with two writes so that both clock phases read it back.
    pub fn load(&mut self, instructions: Vec<&str>) -> (r: Result<(), LoadError>)
        ensures
            (r is Ok) == (instructions@.len() <= 32768 && (forall|k: int|
                0 <= k < instructions@.len() ==> line_ok(#[trigger] instructions@[k]@))),
            (r == Err::<(), LoadError>(LoadError::CapacityExceeded)) == (instructions@.len()
                > 32768),
            r is Err ==> final(self).cur() == old(self).cur() && final(self).past() == old(
                self,
            ).past(),
            r is Ok ==> final(self).cur() == loaded_prefix(
                old(self).cur(),
                instructions@,
                instructions@.len() as int,
            ),
            (r is Ok && instructions@.len() == 0) ==> final(self).past() == old(self).past(),
            (r is Ok && instructions@.len() > 0) ==> final(self).past() == final(self).cur(),
    {
        let n = instructions.len();
        if n > 32768 {
            return Err(LoadError::CapacityExceeded);
        }
        for k in 0..n
            invariant
                n == instructions@.len() <= 32768,
                forall|j: int| 0 <= j < k ==> line_ok(#[trigger] instructions@[j]@),
        {
            if !check_line(instructions[k]) {
                return Err(LoadError::MalformedLine);
            }
        }
        self.write_image(&instructions);
        Ok(())
    }
}

/// The flat-array counterpart of the ROM: eight flat blocks behind the
/// same decoder.
#[derive(Clone)]
pub struct ROM32KBuiltIn {
    r0: RAM4KBuiltIn,
    r1: RAM4KBuiltIn,
    r2: RAM4KBuiltIn,
    r3: RAM4KBuiltIn,
    r4: RAM4KBuiltIn,
    r5: RAM4KBuiltIn,
    r6: RAM4KBuiltIn,
    r7: RAM4KBuiltIn,
}

impl ROM32KBuiltIn {
    /// Every block holds its fixed word count.
    pub closed spec fn wf(self) -> bool {
        self.r0.wf() && self.r1.wf() && self.r2.wf() && self.r3.wf() && self.r4.wf()
            && self.r5.wf() && self.r6.wf() && self.r7.wf()
    }

    /// The block that backs a given top-three-bit selector.
    pub closed spec fn block(self, k: int) -> RAM4KBuiltIn {
        if k == 0 {
            self.r0
        } else if k == 1 {
            self.r1
        } else if k == 2 {
            self.r2
        } else if k == 3 {
            self.r3
        } else if k == 4 {
            self.r4
        } else if k == 5 {
            self.r5
        } else if k == 6 {
            self.r6
        } else {
            self.r7
        }
    }

    /// The stored instruction words.
    pub closed spec fn words(self) -> Seq<Seq<bool>> {
        Seq::new(32768, |j: int| self.block(j / 4096).words()[j % 4096])
    }

    pub fn new() -> (r: Self)
        ensures
            r.wf(),
            r.words() == Seq::new(32768, |j: int| zeros(16)),
    {
        let r = ROM32KBuiltIn {
            r0: RAM4KBuiltIn::new(),
            r1: RAM4KBuiltIn::new(),
            r2: RAM4KBuiltIn::new(),
            r3: RAM4KBuiltIn::new(),
            r4: RAM4KBuiltIn::new(),
            r5: RAM4KBuiltIn::new(),
            r6: RAM4KBuiltIn::new(),
            r7: RAM4KBuiltIn::new(),
        };
        proof {
            assert(r.words() =~= Seq::new(32768, |j: int| zeros(16)));
        }
        r
    }

    pub fn update(&mut self, clk: Binary, input: Word, address: [Binary; 15])
        requires
            old(self).wf(),
        ensures
            final(self).wf(),
            final(self).words() == (if clk {
                old(self).words().update(val15(address@) as int, input@)
            } else {
                old(self).words()
            }),
    {
        let address_low = bit15_to_bit12(address);
        let address_high = [address[12], address[13], address[14]];
        let (a, b, c, d, e, f, g, h) = dmux8way_built_in(true, address_high);
        self.r0.update(clk, input, a, address_low);
        self.r1.update(clk, input, b, address_low);
        self.r2.update(clk, input, c, address_low);
        self.r3.update(clk, input, d, address_low);
        self.r4.update(clk, input, e, address_low);
        self.r5.update(clk, input, f, address_low);
        self.r6.update(clk, input, g, address_low);
        self.r7.update(clk, input, h, address_low);
        proof {
            let lo = val12(address_low@) as int;
            let hi = val3(address_high@) as int;
            assert(val15(address@) == lo + 4096 * hi);
            let wa = val15(address@) as int;
            crate::model::lemma_place_value(val15(address@), 4096, val3(address_high@), val12(address_low@));
            assert forall|j: int| 0 <= j < 32768 implies final(self).words()[j] == (if clk {
                old(self).words().update(wa, input@)
            } else {
                old(self).words()
            })[j] by {
                crate::model::lemma_grid_split(j, 4096);
                let bk = j / 4096;
                let s = j % 4096;
                crate::sequential_circuit::ram4k_built_in_view_lens(old(self).block(bk));
                assert(final(self).words()[j] == final(self).block(bk).words()[s]);
                assert(old(self).words()[j] == old(self).block(bk).words()[s]);
                if clk {
                    if bk == hi {
                        assert(final(self).block(bk).words() == old(self).block(bk).words().update(
                            lo,
                            input@,
                        ));
                        if j == wa {
                            assert(s == lo);
                        } else {
                            assert(s != lo);
                        }
                    } else {
                        assert(final(self).block(bk).words() == old(self).block(bk).words());
                        assert(j != wa);
                    }
                } else {
                    assert(final(self).block(bk).words() == old(self).block(bk).words());
                }
            }
            if clk {
                assert(final(self).words() =~= old(self).words().update(
                    val15(address@) as int,
                    input@,
                ));
            } else {
                assert(final(self).words() =~= old(self).words());
            }
        }
    }

    pub fn get(&self, clk: Binary, address: [Binary; 15]) -> (r: Word)
        requires
            self.wf(),
        ensures
            r@ == self.words()[val15(address@) as int],
    {
        let address_low = bit15_to_bit12(address);
        let address_high = [address[12], address[13], address[14]];
        let r = mux8way16_built_in(
            self.r0.get(clk, address_low),
            self.r1.get(clk, address_low),
            self.r2.get(clk, address_low),
            self.r3.get(clk, address_low),
            self.r4.get(clk, address_low),
            self.r5.get(clk, address_low),
            self.r6.get(clk, address_low),
            self.r7.get(clk, address_low),
            address_high,
        );
        proof {
            let lo = val12(address_low@) as int;
            let hi = val3(address_high@) as int;
            assert(val15(address@) == lo + 4096 * hi);
            crate::model::lemma_place_value(
                val15(address@),
                4096,
                val3(address_high@),
                val12(address_low@),
            );
        }
        r
    }

    /// Loads a program image, line `k` into address `k`; the checks and
    /// the refusal conditions match those of the circuit-built ROM.
    /// Writes every line of a checked image.
    #[verifier::rlimit(100)]
    #[verifier::spinoff_prover]
    fn write_image(&mut self, instructions: &Vec<&str>)
        requires
            old(self).wf(),
            instructions@.len() <= 32768,
            forall|j: int| 0 <= j < instructions@.len() ==> line_ok(#[trigger] instructions@[j]@),
        ensures
            final(self).wf(),
            final(self).words() == loaded_prefix(
                old(self).words(),
                instructions@,
                instructions@.len() as int,
            ),
    {
        let n = instructions.len();
        let mut counter = u16_to_word(0b0000000000000000);
        proof {
            crate::model::lemma_val16_of_bits16(0);
            crate::model::lemma_val16_of_bits16(1);
            assert(self.words() =~= loaded_prefix(old(self).words(), instructions@, 0));
        }
        for k in 0..n
            invariant
                n == instructions@.len() <= 32768,
                forall|j: int| 0 <= j < n ==> line_ok(#[trigger] instructions@[j]@),
                val16(counter@) == k,
                self.wf(),
                self.words() == loaded_prefix(old(self).words(), instructions@, k as int),
        {
            let word = parse_instruction(instructions[k]);
            let address = word_to_bit15(counter);
            proof {
                crate::model::lemma_place_value(k as nat, 32768, 0, k as nat);
                lemma_load_step(old(self).words(), instructions@, k as int);
            }
            let ghost pre_words = self.words();
            self.update(true, word, address);
            counter = add16(counter, u16_to_word(0b0000000000000001));
            proof {
                assert(self.words() == pre_words.update(k as int, parse_line(
                    instructions@[k as int]@,
                )));
            }
        }
    }

    /// Loads a program image, line `k` into address `k`; the checks and
    /// the refusal conditions match those of the circuit-built ROM.
    pub fn load(&mut self, instructions: Vec<&str>) -> (r: Result<(), LoadError>)
        requires
            old(self).wf(),
        ensures
            final(self).wf(),
            (r is Ok) == (instructions@.len() <= 32768 && (forall|k: int|
                0 <= k < instructions@.len() ==> line_ok(#[trigger] instructions@[k]@))),
            (r == Err::<(), LoadError>(LoadError::CapacityExceeded)) == (instructions@.len()
                > 32768),
            r is Err ==> final(self).words() == old(self).words(),
            r is Ok ==> final(self).words() == loaded_prefix(
                old(self).words(),
                instructions@,
                instructions@.len() as int,
            ),
    {
        let n = instructions.len();
        if n > 32768 {
            return Err(LoadError::CapacityExceeded);
        }
        for k in 0..n
            invariant
                n == instructions@.len() <= 32768,
                forall|j: int| 0 <= j < k ==> line_ok(#[trigger] instructions@[j]@),
        {
            if !check_line(instructions[k]) {
                return Err(LoadError::MalformedLine);
            }
        }
        self.write_image(&instructions);
        Ok(())
    }
}


/// A circuit-built ROM holds 32768 words of sixteen bits.
pub proof fn rom32k_view_lens(r: ROM32K)
    ensures
        r.cur().len() == 32768,
        r.past().len() == 32768,
        forall|i: int| 0 <= i < 32768 ==> (#[trigger] r.cur()[i]).len() == 16,
        forall|i: int| 0 <= i < 32768 ==> (#[trigger] r.past()[i]).len() == 16,
{
    assert forall|i: int| 0 <= i < 32768 implies (#[trigger] r.cur()[i]).len() == 16 by {
        crate::model::lemma_grid_split(i, 4096);
        ram4k_view_lens(r.block(i / 4096));
    }
    assert forall|i: int| 0 <= i < 32768 implies (#[trigger] r.past()[i]).len() == 16 by {
        crate::model::lemma_grid_split(i, 4096);
        ram4k_view_lens(r.block(i / 4096));
    }
}

/// The flat ROM holds 32768 words of sixteen bits.
pub proof fn rom32k_built_in_view_lens(r: ROM32KBuiltIn)
    ensures
        r.words().len() == 32768,
        forall|i: int| 0 <= i < 32768 ==> (#[trigger] r.words()[i]).len() == 16,
{
    assert forall|i: int| 0 <= i < 32768 implies (#[trigger] r.words()[i]).len() == 16 by {
        crate::model::lemma_grid_split(i, 4096);
        crate::sequential_circuit::ram4k_built_in_view_lens(r.block(i / 4096));
    }
}

} // verus!
