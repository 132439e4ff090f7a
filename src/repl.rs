use crate::item::{item_of, Items};
use crate::vm::{step_state, VmState, VM};
use vstd::prelude::*;
use vstd::string::StringSliceAdditionalSpecFns;

verus! {

/// The separator between hex tokens of a bytecode line.
pub const SPACE: u8 = 32;

/// Why a token of a bytecode line is not a hex byte.
#[derive(Debug, Clone, Copy, PartialEq, Eq, Structural)]
pub enum HexErrorKind {
    /// The token is empty: the line is empty, or has two spaces in a row or
    /// a space at either end.
    Empty,
    /// The token holds a byte that is not a hex digit, or is a lone `+`.
    InvalidDigit,
    /// The token's digits spell a number above 255.
    PosOverflow,
}

/// The first token of a bytecode line that is not a hex byte: its index
/// among the line's tokens, and why.
#[derive(Debug, Clone, Copy, PartialEq, Eq, Structural)]
pub struct HexError {
    pub token: usize,
    pub kind: HexErrorKind,
}

pub open spec fn is_hex_digit(b: u8) -> bool {
    (48 <= b <= 57) || (65 <= b <= 70) || (97 <= b <= 102)
}

/// The value of a hex digit byte.
pub open spec fn hex_value(b: u8) -> nat {
    if 48 <= b <= 57 {
        (b - 48) as nat
    } else if 65 <= b <= 70 {
        (b - 55) as nat
    } else {
        (b - 87) as nat
    }
}

/// Reads the digits `d` from the left: the number they spell, most
/// significant first, or the first problem met, a byte that is not a hex
/// digit or a value that has passed 255.
pub open spec fn read_digits(d: Seq<u8>) -> Result<nat, HexErrorKind>
    decreases d.len(),
{
    if d.len() == 0 {
        Ok(0)
    } else {
        match read_digits(d.drop_last()) {
            Err(e) => Err(e),
            Ok(v) => if !is_hex_digit(d.last()) {
                Err(HexErrorKind::InvalidDigit)
            } else if v * 16 + hex_value(d.last()) > 255 {
                Err(HexErrorKind::PosOverflow)
            } else {
                Ok(v * 16 + hex_value(d.last()))
            },
        }
    }
}

/// A token without its optional leading `+` (byte 43).
pub open spec fn token_digits(t: Seq<u8>) -> Seq<u8> {
    if t.len() > 0 && t[0] == 43 {
        t.subrange(1, t.len() as int)
    } else {
        t
    }
}

/// The byte a token encodes: an optional `+`, then one or more hex digits
/// of either case, leading zeros allowed, whose value is at most 255.
pub open spec fn token_value(t: Seq<u8>) -> Result<u8, HexErrorKind> {
    if t.len() == 0 {
        Err(HexErrorKind::Empty)
    } else if token_digits(t).len() == 0 {
        Err(HexErrorKind::InvalidDigit)
    } else {
        match read_digits(token_digits(t)) {
            Ok(v) => Ok(v as u8),
            Err(e) => Err(e),
        }
    }
}

/// The tokens of `s` between single spaces; `n` spaces give `n + 1`
/// tokens, some of them possibly empty.
pub open spec fn tokens(s: Seq<u8>) -> Seq<Seq<u8>>
    decreases s.len(),
{
    if s.len() == 0 {
        seq![Seq::<u8>::empty()]
    } else {
        let t = tokens(s.drop_last());
        if s.last() == SPACE {
            t.push(Seq::<u8>::empty())
        } else {
            t.update(t.len() - 1, t.last().push(s.last()))
        }
    }
}

/// The bytes that the tokens `ts` encode, or the error of the first token
/// that is not a hex byte.
pub open spec fn parse_tokens(ts: Seq<Seq<u8>>) -> Result<Seq<u8>, HexError>
    decreases ts.len(),
{
    if ts.len() == 0 {
        Ok(Seq::<u8>::empty())
    } else {
        match parse_tokens(ts.drop_last()) {
            Err(e) => Err(e),
            Ok(bytes) => match token_value(ts.last()) {
                Ok(b) => Ok(bytes.push(b)),
                Err(kind) => Err(HexError { token: (ts.len() - 1) as usize, kind }),
            },
        }
    }
}

/// The bytes a line of space-separated hex tokens encodes, or the error of
/// its first bad token.
pub open spec fn hex_bytes(s: Seq<u8>) -> Result<Seq<u8>, HexError> {
    parse_tokens(tokens(s))
}

proof fn lemma_read_digits_error_stays(d: Seq<u8>, n: int)
    requires
        0 < n <= d.len(),
        read_digits(d.take(n)) is Err,
    ensures
        read_digits(d) == read_digits(d.take(n)),
    decreases d.len(),
{
    if n == d.len() {
        assert(d.take(n) =~= d);
    } else {
        assert(d.drop_last().take(n) =~= d.take(n));
        lemma_read_digits_error_stays(d.drop_last(), n);
    }
}

proof fn lemma_parse_error_stays(ts: Seq<Seq<u8>>, n: int)
    requires
        0 < n <= ts.len(),
        parse_tokens(ts.take(n)) is Err,
    ensures
        parse_tokens(ts) == parse_tokens(ts.take(n)),
    decreases ts.len(),
{
    if n == ts.len() {
        assert(ts.take(n) =~= ts);
    } else {
        assert(ts.drop_last().take(n) =~= ts.take(n));
        lemma_parse_error_stays(ts.drop_last(), n);
    }
}

/// The interactive front end's state: a machine and the lines accepted so far.
pub struct REPL {
    pub vm: VM,
    pub command_buffer: Vec<String>,
}

impl REPL {
    /// A front end with a fresh machine and an empty history.
    pub fn new() -> (r: REPL)
        ensures
            r.vm@.registers == Seq::new(32, |i: int| 0i32),
            r.vm@.pc == 0,
            r.vm@.program == Seq::<u8>::empty(),
            r.vm@.remainder == 0,
            !r.vm@.equal_flag,
            r.vm@.fault is None,
            !r.vm@.halted,
            r.command_buffer@.len() == 0,
    {
        REPL { vm: VM::new(), command_buffer: Vec::new() }
    }

    /// The value of one token, as `token_value` states it.
    fn token_to_byte(t: &Vec<u8>) -> (r: Result<u8, HexErrorKind>)
        ensures
            r == token_value(t@),
    {
        if t.len() == 0 {
            return Err(HexErrorKind::Empty);
        }
        let start: usize = if t[0] == 43 {
            1
        } else {
            0
        };
        let ghost d = token_digits(t@);
        assert(d =~= t@.subrange(start as int, t@.len() as int));
        if start == t.len() {
            return Err(HexErrorKind::InvalidDigit);
        }
        let mut acc: u32 = 0;
        let mut i: usize = start;
        assert(d.take(0) =~= Seq::<u8>::empty());
        while i < t.len()
            invariant
                start < t.len(),
                start <= i <= t.len(),
                d == token_digits(t@),
                d =~= t@.subrange(start as int, t@.len() as int),
                acc <= 255,
                read_digits(d.take(i - start)) == Ok::<nat, HexErrorKind>(acc as nat),
            decreases t.len() - i,
        {
            let b = t[i];
            assert(d.take(i + 1 - start).drop_last() =~= d.take(i - start));
            assert(d.take(i + 1 - start).last() == b);
            if !((48 <= b && b <= 57) || (65 <= b && b <= 70) || (97 <= b && b <= 102)) {
                assert(read_digits(d.take(i + 1 - start)) == Err::<nat, HexErrorKind>(
                    HexErrorKind::InvalidDigit,
                ));
                proof {
                    lemma_read_digits_error_stays(d, i + 1 - start);
                }
                return Err(HexErrorKind::InvalidDigit);
            }
            let v: u32 = if b <= 57 {
                (b - 48) as u32
            } else if b <= 70 {
                (b - 55) as u32
            } else {
                (b - 87) as u32
            };
            let next = acc * 16 + v;
            assert(v as nat == hex_value(b));
            if next > 255 {
                assert(read_digits(d.take(i + 1 - start)) == Err::<nat, HexErrorKind>(
                    HexErrorKind::PosOverflow,
                ));
                proof {
                    lemma_read_digits_error_stays(d, i + 1 - start);
                }
                return Err(HexErrorKind::PosOverflow);
            }
            acc = next;
            i = i + 1;
        }
        assert(d.take(i - start) =~= d);
        Ok(acc as u8)
    }

    /// Splits a line at each space into its tokens.
    fn split_tokens(s: &[u8]) -> (r: Vec<Vec<u8>>)
        ensures
            r@.len() == tokens(s@).len(),
            forall|k: int| 0 <= k < r@.len() ==> (#[trigger] r@[k])@ == tokens(s@)[k],
    {
        let mut done: Vec<Vec<u8>> = Vec::new();
        let mut cur: Vec<u8> = Vec::new();
        let mut i: usize = 0;
        while i < s.len()
            invariant
                i <= s@.len(),
                tokens(s@.subrange(0, i as int)).len() == done@.len() + 1,
                forall|k: int|
                    0 <= k < done@.len() ==> (#[trigger] done@[k])@ == tokens(
                        s@.subrange(0, i as int),
                    )[k],
                cur@ == tokens(s@.subrange(0, i as int)).last(),
            decreases s.len() - i,
        {
            assert(s@.subrange(0, i + 1).drop_last() =~= s@.subrange(0, i as int));
            if s[i] == SPACE {
                let finished = cur;
                done.push(finished);
                cur = Vec::new();
            } else {
                cur.push(s[i]);
            }
            i = i + 1;
        }
        assert(s@.subrange(0, i as int) =~= s@);
        done.push(cur);
        done
    }

    /// Parses a line of space-separated hex tokens into the bytes they
    /// encode, or reports the first token that is not a hex byte.
    pub fn parse_hex(line: &str) -> (r: Result<Vec<u8>, HexError>)
        ensures
            match hex_bytes(line.spec_bytes()) {
                Ok(bytes) => r is Ok && r->Ok_0@ == bytes,
                Err(e) => r == Err::<Vec<u8>, HexError>(e),
            },
    {
        let raw = line.as_bytes();
        let parts = Self::split_tokens(raw);
        let ghost ts = tokens(line.spec_bytes());
        assert(raw@ == line.spec_bytes());
        let mut results: Vec<u8> = Vec::new();
        let mut k: usize = 0;
        assert(ts.take(0) =~= Seq::<Seq<u8>>::empty());
        while k < parts.len()
            invariant
                k <= parts@.len(),
                ts == tokens(line.spec_bytes()),
                parts@.len() == ts.len(),
                forall|j: int| 0 <= j < parts@.len() ==> (#[trigger] parts@[j])@ == ts[j],
                parse_tokens(ts.take(k as int)) == Ok::<Seq<u8>, HexError>(results@),
            decreases parts.len() - k,
        {
            assert(ts.take(k + 1).drop_last() =~= ts.take(k as int));
            assert(ts.take(k + 1).last() == ts[k as int]);
            match Self::token_to_byte(&parts[k]) {
                Ok(b) => results.push(b),
                Err(kind) => {
                    proof {
                        lemma_parse_error_stays(ts, k + 1);
                    }
                    return Err(HexError { token: k, kind });
                },
            }
            k = k + 1;
        }
        assert(ts.take(k as int) =~= ts);
        Ok(results)
    }

    /// Records an accepted line in the history.
    fn add_command_buffer(&mut self, line: &str)
        ensures
            final(self).vm == old(self).vm,
            final(self).command_buffer.deep_view() == old(self).command_buffer.deep_view().push(
                line@,
            ),
    {
        let owned = line.to_owned();
        self.command_buffer.push(owned);
        assert(self.command_buffer.deep_view() =~= old(self).command_buffer.deep_view().push(
            line@,
        ));
    }

    /// Handles one line of input. A command is recorded in the history and
    /// returned for the caller to carry out; `.quit` is returned without
    /// being recorded. Any other line is taken as hex bytecode: its bytes
    /// are appended to the program, a halt left by `HLT` or an illegal
    /// opcode is cleared so that they can run, and the line is recorded; or
    /// the error of its first bad token is returned and nothing is appended.
    /// Either way the machine then runs one instruction, and `INVALID`
    /// stands for a line that was loaded.
    pub fn exec_item(&mut self, line: &str) -> (r: Result<Items, HexError>)
        ensures
            item_of(line@) == Items::QUIT ==> r == Ok::<Items, HexError>(Items::QUIT)
                && final(self).vm@ == old(self).vm@ && final(self).command_buffer.deep_view()
                == old(self).command_buffer.deep_view(),
            item_of(line@) != Items::QUIT && item_of(line@) != Items::INVALID ==> r == Ok::<
                Items,
                HexError,
            >(item_of(line@)) && final(self).vm@ == old(self).vm@
                && final(self).command_buffer.deep_view()
                == old(self).command_buffer.deep_view().push(line@),
            item_of(line@) == Items::INVALID ==> match hex_bytes(line.spec_bytes()) {
                Ok(bytes) => r == Ok::<Items, HexError>(Items::INVALID) && final(self).vm@
                    == step_state(
                    VmState {
                        program: old(self).vm@.program + bytes,
                        halted: false,
                        ..old(self).vm@
                    },
                ).0 && final(self).command_buffer.deep_view()
                    == old(self).command_buffer.deep_view().push(line@),
                Err(e) => r == Err::<Items, HexError>(e) && final(self).vm@ == step_state(
                    old(self).vm@,
                ).0 && final(self).command_buffer.deep_view()
                    == old(self).command_buffer.deep_view(),
            },
    {
        let item = Items::from(line);
        match item {
            Items::QUIT => Ok(Items::QUIT),
            Items::INVALID => {
                let result = match Self::parse_hex(line) {
                    Ok(bytes) => {
                        let ghost before = self.vm@;
                        let mut i: usize = 0;
                        while i < bytes.len()
                            invariant
                                i <= bytes@.len(),
                                self.vm@ == (VmState {
                                    program: before.program + bytes@.subrange(0, i as int),
                                    ..before
                                }),
                                self.command_buffer == old(self).command_buffer,
                            decreases bytes.len() - i,
                        {
                            self.vm.add_byte(bytes[i]);
                            assert(before.program + bytes@.subrange(0, i + 1) =~= (before.program
                                + bytes@.subrange(0, i as int)).push(bytes@[i as int]));
                            i = i + 1;
                        }
                        assert(bytes@.subrange(0, i as int) =~= bytes@);
                        self.vm.resume();
                        self.add_command_buffer(line);
                        Ok(Items::INVALID)
                    },
                    Err(e) => Err(e),
                };
                self.vm.run_once();
                result
            },
            _ => {
                self.add_command_buffer(line);
                Ok(item)
            },
        }
    }
}

} // verus!
