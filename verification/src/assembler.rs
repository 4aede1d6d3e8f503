//! The two-pass assembler's core: address instructions (`@value`),
//! compute instructions (`dest=comp;jump`), label pseudo-instructions,
//! and the symbol table with the machine's predefined names.
//!
//! An address instruction resolves to a 15-bit value: a numeral stands
//! for itself, a known symbol for its table entry, and a fresh symbol is
//! allocated the next free variable address.  A compute instruction
//! encodes its fields into the 16-bit instruction word.

use vstd::prelude::*;

use crate::text::str_eq;

verus! {

// ---------------------------------------------------------------------
// Characters, numerals, whitespace.
// ---------------------------------------------------------------------

pub open spec fn is_digit(c: char) -> bool {
    '0' <= c && c <= '9'
}

/// The whitespace the assembler strips around instruction fields.
pub open spec fn is_space(c: char) -> bool {
    c == ' ' || c == '\t' || c == '\r' || c == '\n'
}

/// Value of a digit string, most significant digit first.
pub open spec fn dec_val(s: Seq<char>) -> int
    decreases s.len(),
{
    if s.len() == 0 {
        0
    } else {
        dec_val(s.drop_last()) * 10 + (s.last() as u32) - ('0' as u32)
    }
}

pub open spec fn all_digits(s: Seq<char>) -> bool {
    s.len() > 0 && forall|i: int| 0 <= i < s.len() ==> is_digit(#[trigger] s[i])
}

/// The digits of a numeral, allowing one leading `+` sign.
pub open spec fn numeral_body(s: Seq<char>) -> Seq<char> {
    if s.len() > 0 && s[0] == '+' {
        s.drop_first()
    } else {
        s
    }
}

/// Whether `s` reads as an unsigned 16-bit numeral, and its value.
pub open spec fn is_u16_numeral(s: Seq<char>) -> bool {
    all_digits(numeral_body(s)) && dec_val(numeral_body(s)) <= 65535
}

pub proof fn lemma_dec_val_nonneg(s: Seq<char>)
    requires
        forall|i: int| 0 <= i < s.len() ==> is_digit(#[trigger] s[i]),
    ensures
        dec_val(s) >= 0,
    decreases s.len(),
{
    if s.len() > 0 {
        assert(forall|i: int|
            0 <= i < s.drop_last().len() ==> is_digit(#[trigger] s.drop_last()[i]));
        lemma_dec_val_nonneg(s.drop_last());
    }
}

pub proof fn lemma_dec_val_mono(s: Seq<char>, i: int)
    requires
        forall|k: int| 0 <= k < s.len() ==> is_digit(#[trigger] s[k]),
        0 <= i <= s.len(),
    ensures
        dec_val(s.take(i)) <= dec_val(s),
    decreases s.len() - i,
{
    if i < s.len() {
        assert(s.take(i + 1).drop_last() =~= s.take(i));
        assert(forall|k: int| 0 <= k < s.take(i).len() ==> is_digit(#[trigger] s.take(i)[k]));
        lemma_dec_val_nonneg(s.take(i));
        lemma_dec_val_mono(s, i + 1);
        assert(s.take(s.len() as int) =~= s);
    } else {
        assert(s.take(i) =~= s);
    }
}

/// Parse an unsigned 16-bit numeral, as `str::parse::<u16>` reads one:
/// an optional `+`, then decimal digits, and a value at most 65535.
pub fn parse_u16(s: &str) -> (r: Option<u16>)
    ensures
        match r {
            Some(v) => is_u16_numeral(s@) && v as int == dec_val(numeral_body(s@)),
            None => !is_u16_numeral(s@),
        },
{
    let n = s.unicode_len();
    let mut start: usize = 0;
    if n > 0 && s.get_char(0) == '+' {
        start = 1;
    }
    if start >= n {
        return None;
    }
    let ghost body = numeral_body(s@);
    proof {
        assert(body =~= s@.subrange(start as int, n as int));
    }
    let mut val: u32 = 0;
    let mut i: usize = start;
    while i < n
        invariant
            start <= i <= n,
            n == s@.len(),
            start < n,
            start == 0 || (s@.len() > 0 && s@[0] == '+' && start == 1),
            body == numeral_body(s@),
            body =~= s@.subrange(start as int, n as int),
            forall|k: int| 0 <= k < i - start ==> is_digit(#[trigger] body[k]),
            val as int == dec_val(body.take(i - start)),
            val <= 65535,
        decreases n - i,
    {
        let c = s.get_char(i);
        if !(c >= '0' && c <= '9') {
            proof {
                assert(body[i - start] == c);
            }
            return None;
        }
        let d = (c as u32) - ('0' as u32);
        proof {
            assert(body.take(i - start + 1).drop_last() =~= body.take(i - start));
            assert(body.take(i - start + 1).last() == body[i - start]);
            assert(body[i - start] == c);
        }
        let next = val * 10 + d;
        if next > 65535 {
            proof {
                assert(dec_val(body.take(i - start + 1)) > 65535);
                if all_digits(body) {
                    lemma_dec_val_mono(body, i - start + 1);
                }
            }
            return None;
        }
        val = next;
        i = i + 1;
    }
    proof {
        assert(body.take(n - start) =~= body);
    }
    Some(val as u16)
}

// ---------------------------------------------------------------------
// The symbol table.
// ---------------------------------------------------------------------

/// The view of one table entry.
pub open spec fn view_sym(p: (String, u16)) -> (Seq<char>, u16) {
    (p.0@, p.1)
}

pub open spec fn view_syms(es: Seq<(String, u16)>) -> Seq<(Seq<char>, u16)> {
    es.map(|i: int, p: (String, u16)| view_sym(p))
}

/// The mapping an entry list denotes: later entries win.
pub open spec fn table_map(es: Seq<(Seq<char>, u16)>) -> Map<Seq<char>, u16>
    decreases es.len(),
{
    if es.len() == 0 {
        Map::empty()
    } else {
        table_map(es.drop_last()).insert(es.last().0, es.last().1)
    }
}

/// The machine's predefined names: the sixteen register aliases, the
/// five segment pointers, and the two device addresses.
pub open spec fn predefined_symbols() -> Seq<(Seq<char>, u16)> {
    seq![
        ("R0"@, 0u16),
        ("R1"@, 1u16),
        ("R2"@, 2u16),
        ("R3"@, 3u16),
        ("R4"@, 4u16),
        ("R5"@, 5u16),
        ("R6"@, 6u16),
        ("R7"@, 7u16),
        ("R8"@, 8u16),
        ("R9"@, 9u16),
        ("R10"@, 10u16),
        ("R11"@, 11u16),
        ("R12"@, 12u16),
        ("R13"@, 13u16),
        ("R14"@, 14u16),
        ("R15"@, 15u16),
        ("SP"@, 0u16),
        ("LCL"@, 1u16),
        ("ARG"@, 2u16),
        ("THIS"@, 3u16),
        ("THAT"@, 4u16),
        ("SCREEN"@, 16384u16),
        ("KBD"@, 24576u16),
    ]
}

/// The assembler's symbol table: predefined names, labels from the
/// first pass, and variables allocated from address 16 upward.
pub struct SymbolsTable {
    pub entries: Vec<(String, u16)>,
    pub next_value: u16,
}

impl View for SymbolsTable {
    type V = Map<Seq<char>, u16>;

    open spec fn view(&self) -> Map<Seq<char>, u16> {
        table_map(view_syms(self.entries@))
    }
}

/// Last-wins lookup in an entry list.
pub open spec fn sym_lookup(es: Seq<(Seq<char>, u16)>, k: Seq<char>) -> Option<u16>
    decreases es.len(),
{
    if es.len() == 0 {
        None
    } else if es.last().0 == k {
        Some(es.last().1)
    } else {
        sym_lookup(es.drop_last(), k)
    }
}

proof fn lemma_sym_lookup_map(es: Seq<(Seq<char>, u16)>, k: Seq<char>)
    ensures
        table_map(es).contains_key(k) <==> sym_lookup(es, k) is Some,
        sym_lookup(es, k) matches Some(v) ==> table_map(es)[k] == v,
    decreases es.len(),
{
    if es.len() > 0 {
        lemma_sym_lookup_map(es.drop_last(), k);
    }
}

proof fn lemma_view_syms_push(es: Seq<(String, u16)>, p: (String, u16))
    ensures
        view_syms(es.push(p)) == view_syms(es).push(view_sym(p)),
{
    assert(view_syms(es.push(p)) =~= view_syms(es).push(view_sym(p)));
}

impl SymbolsTable {
    /// A table holding exactly the predefined names, with variable
    /// allocation starting at 16.
    pub fn new() -> (r: SymbolsTable)
        ensures
            r@ == table_map(predefined_symbols()),
            r.next_value == 16,
    {
        let mut entries: Vec<(String, u16)> = Vec::new();
        entries.push((String::from_str("R0"), 0));
        entries.push((String::from_str("R1"), 1));
        entries.push((String::from_str("R2"), 2));
        entries.push((String::from_str("R3"), 3));
        entries.push((String::from_str("R4"), 4));
        entries.push((String::from_str("R5"), 5));
        entries.push((String::from_str("R6"), 6));
        entries.push((String::from_str("R7"), 7));
        entries.push((String::from_str("R8"), 8));
        entries.push((String::from_str("R9"), 9));
        entries.push((String::from_str("R10"), 10));
        entries.push((String::from_str("R11"), 11));
        entries.push((String::from_str("R12"), 12));
        entries.push((String::from_str("R13"), 13));
        entries.push((String::from_str("R14"), 14));
        entries.push((String::from_str("R15"), 15));
        entries.push((String::from_str("SP"), 0));
        entries.push((String::from_str("LCL"), 1));
        entries.push((String::from_str("ARG"), 2));
        entries.push((String::from_str("THIS"), 3));
        entries.push((String::from_str("THAT"), 4));
        entries.push((String::from_str("SCREEN"), 16384));
        entries.push((String::from_str("KBD"), 24576));
        proof {
            assert(view_syms(entries@) =~= predefined_symbols());
        }
        SymbolsTable { entries, next_value: 16 }
    }

    /// Whether the name is bound.
    pub fn contains_key(&self, k: &str) -> (r: bool)
        ensures
            r == self@.contains_key(k@),
    {
        proof {
            lemma_sym_lookup_map(view_syms(self.entries@), k@);
        }
        match self.lookup_entry(k) {
            Some(_) => true,
            None => false,
        }
    }

    /// The bound value of the name, if any.
    pub fn get<'s>(&'s self, k: &str) -> (r: Option<&'s u16>)
        ensures
            match r {
                Some(v) => self@.contains_key(k@) && *v == self@[k@],
                None => !self@.contains_key(k@),
            },
    {
        proof {
            lemma_sym_lookup_map(view_syms(self.entries@), k@);
        }
        self.lookup_entry(k)
    }

    fn lookup_entry<'s>(&'s self, k: &str) -> (r: Option<&'s u16>)
        ensures
            match r {
                Some(v) => sym_lookup(view_syms(self.entries@), k@) == Some(*v),
                None => sym_lookup(view_syms(self.entries@), k@) is None,
            },
    {
        let ghost lv = view_syms(self.entries@);
        let mut i: usize = self.entries.len();
        proof {
            assert(lv.take(self.entries@.len() as int) =~= lv);
        }
        while i > 0
            invariant
                i <= self.entries@.len(),
                lv == view_syms(self.entries@),
                lv.len() == self.entries@.len(),
                sym_lookup(lv.take(i as int), k@) == sym_lookup(lv, k@),
            decreases i,
        {
            let e = &self.entries[i - 1];
            proof {
                assert(lv.take(i as int).drop_last() =~= lv.take(i - 1));
                assert(lv.take(i as int).last() == view_sym(self.entries@[i - 1]));
            }
            if str_eq(e.0.as_str(), k) {
                return Some(&e.1);
            }
            i = i - 1;
        }
        proof {
            assert(lv.take(0) =~= Seq::<(Seq<char>, u16)>::empty());
        }
        None
    }

    /// Bind the name to the next free variable address and advance it.
    pub fn insert_variable(&mut self, k: String)
        requires
            old(self).next_value < u16::MAX,
        ensures
            final(self)@ == old(self)@.insert(k@, old(self).next_value),
            final(self).next_value == old(self).next_value + 1,
    {
        let ghost pre = self.entries@;
        let v = self.next_value;
        self.entries.push((k, v));
        self.next_value = self.next_value + 1;
        proof {
            lemma_view_syms_push(pre, self.entries@.last());
            assert(view_syms(self.entries@).drop_last() =~= view_syms(pre));
        }
    }

    /// Bind the name to an instruction address from the first pass.
    pub fn insert_label(&mut self, k: String, line_number: u16)
        ensures
            final(self)@ == old(self)@.insert(k@, line_number),
            final(self).next_value == old(self).next_value,
    {
        let ghost pre = self.entries@;
        self.entries.push((k, line_number));
        proof {
            lemma_view_syms_push(pre, self.entries@.last());
            assert(view_syms(self.entries@).drop_last() =~= view_syms(pre));
        }
    }
}

// ---------------------------------------------------------------------
// Label pseudo-instructions.
// ---------------------------------------------------------------------

/// A `(Name)` label line.
pub struct Label<'a>(pub &'a str);

impl Label<'_> {
    pub fn from(s: &str) -> (r: Label<'_>)
        ensures
            r.0@ == s@,
    {
        Label(s)
    }

    /// The name between the parentheses.
    pub fn get_label(&self) -> (r: &str)
        requires
            self.0@.len() >= 2,
        ensures
            r@ == self.0@.subrange(1, self.0@.len() - 1),
    {
        let n = self.0.unicode_len();
        self.0.substring_char(1, n - 1)
    }
}

// ---------------------------------------------------------------------
// Address instructions.
// ---------------------------------------------------------------------

/// An `@value` address instruction.
pub struct A<'a>(pub &'a str);

/// A `dest=comp;jump` compute instruction.
pub struct D<'a>(pub &'a str);

/// One source instruction of the machine.
pub enum Instruction<'a> {
    A(A<'a>),
    D(D<'a>),
}

/// What `A::resolve` returns and how it changes the table: the value,
/// the bindings and the variable counter after the call, as a function
/// of the symbol text and the table before it.  Only binding a fresh
/// symbol advances the counter, by exactly one.
pub open spec fn a_spec(v: Seq<char>, m: Map<Seq<char>, u16>, next: u16) -> (u16, Map<
    Seq<char>,
    u16,
>, u16) {
    if is_u16_numeral(v) {
        (dec_val(numeral_body(v)) as u16, m, next)
    } else if m.contains_key(v) {
        (m[v], m, next)
    } else {
        (next, m.insert(v, next), (next + 1) as u16)
    }
}

impl A<'_> {
    pub fn from(s: &str) -> (r: A<'_>)
        ensures
            r.0@ == s@,
    {
        A(s)
    }

    /// Resolve the instruction's value: a numeral stands for itself, a
    /// known symbol for its entry, and a fresh symbol is bound to the
    /// next free variable address.
    pub fn resolve(&self, symbols_table: &mut SymbolsTable) -> (r: u16)
        requires
            self.0@.len() >= 1,
            is_u16_numeral(self.0@.subrange(1, self.0@.len() as int)) ==> dec_val(
                numeral_body(self.0@.subrange(1, self.0@.len() as int)),
            ) <= 32767,
            forall|k: Seq<char>| old(symbols_table)@.contains_key(k) ==> old(symbols_table)@[k]
                <= 32767,
            old(symbols_table).next_value <= 32767,
        ensures
            ({
                let v = self.0@.subrange(1, self.0@.len() as int);
                let (val, m, next) = a_spec(v, old(symbols_table)@, old(symbols_table).next_value);
                r == val && final(symbols_table)@ == m && final(symbols_table).next_value == next
            }),
    {
        let n = self.0.unicode_len();
        let value = self.0.substring_char(1, n);
        match parse_u16(value) {
            Some(num) => {
                return num;
            },
            None => {},
        }
        // Refer to a label or an existing variable.
        match symbols_table.get(value) {
            Some(num) => {
                return *num;
            },
            None => {},
        }
        // Refer to a fresh variable.
        let r = symbols_table.next_value;
        symbols_table.insert_variable(value.to_owned());
        r
    }
}


// ---------------------------------------------------------------------
// Compute instructions.
// ---------------------------------------------------------------------

/// Index of the first occurrence of `c`, if any.
pub open spec fn find_char(s: Seq<char>, c: char) -> Option<int>
    decreases s.len(),
{
    if s.len() == 0 {
        None
    } else if s[0] == c {
        Some(0)
    } else {
        match find_char(s.drop_first(), c) {
            Some(i) => Some(i + 1),
            None => None,
        }
    }
}

/// Strip leading whitespace.
pub open spec fn spec_trim_start(s: Seq<char>) -> Seq<char>
    decreases s.len(),
{
    if s.len() > 0 && is_space(s[0]) {
        spec_trim_start(s.drop_first())
    } else {
        s
    }
}

/// Strip trailing whitespace.
pub open spec fn spec_trim_end(s: Seq<char>) -> Seq<char>
    decreases s.len(),
{
    if s.len() > 0 && is_space(s.last()) {
        spec_trim_end(s.drop_last())
    } else {
        s
    }
}

/// The destination bits: `M`, `D`, `A` set bits 0, 1, 2.
pub open spec fn dest_bits(d: Seq<char>) -> int {
    (if d.contains('M') {
        1int
    } else {
        0int
    }) + (if d.contains('D') {
        2int
    } else {
        0int
    }) + (if d.contains('A') {
        4int
    } else {
        0int
    })
}

/// The jump bits for a jump mnemonic.
pub open spec fn jump_code(j: Seq<char>) -> Option<u16> {
    if j == "JGT"@ {
        Some(1u16)
    } else if j == "JEQ"@ {
        Some(2u16)
    } else if j == "JGE"@ {
        Some(3u16)
    } else if j == "JLT"@ {
        Some(4u16)
    } else if j == "JNE"@ {
        Some(5u16)
    } else if j == "JLE"@ {
        Some(6u16)
    } else if j == "JMP"@ {
        Some(7u16)
    } else {
        None
    }
}

/// The computation bits for a computation mnemonic.
pub open spec fn comp_code(c: Seq<char>) -> Option<u16> {
    if c == "0"@ {
        Some(0x2au16)
    } else if c == "1"@ {
        Some(0x3fu16)
    } else if c == "-1"@ {
        Some(0x3au16)
    } else if c == "D"@ {
        Some(0x0cu16)
    } else if c == "A"@ {
        Some(0x30u16)
    } else if c == "M"@ {
        Some(0x70u16)
    } else if c == "!D"@ {
        Some(0x0du16)
    } else if c == "!A"@ {
        Some(0x31u16)
    } else if c == "!M"@ {
        Some(0x71u16)
    } else if c == "-D"@ {
        Some(0x0fu16)
    } else if c == "-A"@ {
        Some(0x33u16)
    } else if c == "-M"@ {
        Some(0x73u16)
    } else if c == "D+1"@ {
        Some(0x1fu16)
    } else if c == "A+1"@ {
        Some(0x37u16)
    } else if c == "M+1"@ {
        Some(0x77u16)
    } else if c == "D-1"@ {
        Some(0x0eu16)
    } else if c == "A-1"@ {
        Some(0x32u16)
    } else if c == "M-1"@ {
        Some(0x72u16)
    } else if c == "D+A"@ {
        Some(0x02u16)
    } else if c == "D+M"@ {
        Some(0x42u16)
    } else if c == "D-A"@ {
        Some(0x13u16)
    } else if c == "D-M"@ {
        Some(0x53u16)
    } else if c == "A-D"@ {
        Some(0x07u16)
    } else if c == "M-D"@ {
        Some(0x47u16)
    } else if c == "D&A"@ {
        Some(0x00u16)
    } else if c == "D&M"@ {
        Some(0x40u16)
    } else if c == "D|A"@ {
        Some(0x15u16)
    } else if c == "D|M"@ {
        Some(0x55u16)
    } else {
        None
    }
}

/// The encoded word of a compute instruction, if its fields are valid:
/// the leading `111`, then computation, destination and jump bits.
pub open spec fn d_value(s: Seq<char>) -> Option<u16> {
    let (d, rest) = match find_char(s, '=') {
        Some(i) => (
            dest_bits(spec_trim_end(s.subrange(0, i))),
            spec_trim_start(s.subrange(i + 1, s.len() as int)),
        ),
        None => (0int, s),
    };
    let (comp, j) = match find_char(rest, ';') {
        Some(i) => (
            spec_trim_end(rest.subrange(0, i)),
            jump_code(spec_trim_start(rest.subrange(i + 1, rest.len() as int))),
        ),
        None => (rest, Some(0u16)),
    };
    match j {
        Some(jv) => match comp_code(comp) {
            Some(cv) => Some((0xe000 + cv * 64 + d * 8 + jv) as u16),
            None => None,
        },
        None => None,
    }
}

/// Find the first occurrence of `c`.
fn find_char_str(s: &str, c: char) -> (r: Option<usize>)
    ensures
        match r {
            Some(i) => find_char(s@, c) == Some(i as int) && i < s@.len(),
            None => find_char(s@, c) is None,
        },
{
    let n = s.unicode_len();
    let mut i: usize = 0;
    proof {
        assert(s@.subrange(0, n as int) =~= s@);
    }
    while i < n
        invariant
            i <= n,
            n == s@.len(),
            forall|k: int| 0 <= k < i ==> s@[k] != c,
            find_char(s@.subrange(i as int, n as int), c) matches Some(fi) ==> find_char(s@, c)
                == Some(fi + i),
            find_char(s@.subrange(i as int, n as int), c) is None ==> find_char(s@, c) is None,
        decreases n - i,
    {
        proof {
            assert(s@.subrange(i as int, n as int)[0] == s@[i as int]);
            assert(s@.subrange(i as int, n as int).drop_first() =~= s@.subrange(i + 1, n as int));
        }
        if s.get_char(i) == c {
            return Some(i);
        }
        i = i + 1;
    }
    proof {
        assert(s@.subrange(n as int, n as int) =~= Seq::<char>::empty());
    }
    None
}

/// Whether the slice holds the character.
fn contains_char(s: &str, c: char) -> (r: bool)
    ensures
        r == s@.contains(c),
{
    let n = s.unicode_len();
    let mut i: usize = 0;
    while i < n
        invariant
            i <= n,
            n == s@.len(),
            forall|k: int| 0 <= k < i ==> s@[k] != c,
        decreases n - i,
    {
        if s.get_char(i) == c {
            return true;
        }
        i = i + 1;
    }
    false
}

/// Strip leading whitespace.
fn trim_start_str(s: &str) -> (r: &str)
    ensures
        r@ == spec_trim_start(s@),
    decreases s@.len(),
{
    let n = s.unicode_len();
    if n > 0 {
        let c = s.get_char(0);
        if c == ' ' || c == '\t' || c == '\r' || c == '\n' {
            proof {
                assert(s@.subrange(1, n as int) =~= s@.drop_first());
            }
            return trim_start_str(s.substring_char(1, n));
        }
    }
    s
}

/// Strip trailing whitespace.
fn trim_end_str(s: &str) -> (r: &str)
    ensures
        r@ == spec_trim_end(s@),
    decreases s@.len(),
{
    let n = s.unicode_len();
    if n > 0 {
        let c = s.get_char(n - 1);
        if c == ' ' || c == '\t' || c == '\r' || c == '\n' {
            proof {
                assert(s@.subrange(0, n - 1) =~= s@.drop_last());
            }
            return trim_end_str(s.substring_char(0, n - 1));
        }
    }
    s
}

/// The jump bits of a jump mnemonic.
fn jump_ins(j: &str) -> (r: Option<u16>)
    ensures
        r == jump_code(j@),
{
    if str_eq(j, "JGT") {
        Some(1)
    } else if str_eq(j, "JEQ") {
        Some(2)
    } else if str_eq(j, "JGE") {
        Some(3)
    } else if str_eq(j, "JLT") {
        Some(4)
    } else if str_eq(j, "JNE") {
        Some(5)
    } else if str_eq(j, "JLE") {
        Some(6)
    } else if str_eq(j, "JMP") {
        Some(7)
    } else {
        None
    }
}

/// The computation bits of a computation mnemonic.
fn comp_ins(c: &str) -> (r: Option<u16>)
    ensures
        r == comp_code(c@),
        r matches Some(v) ==> v <= 0x7f,
{
    if str_eq(c, "0") {
        Some(0x2a)
    } else if str_eq(c, "1") {
        Some(0x3f)
    } else if str_eq(c, "-1") {
        Some(0x3a)
    } else if str_eq(c, "D") {
        Some(0x0c)
    } else if str_eq(c, "A") {
        Some(0x30)
    } else if str_eq(c, "M") {
        Some(0x70)
    } else if str_eq(c, "!D") {
        Some(0x0d)
    } else if str_eq(c, "!A") {
        Some(0x31)
    } else if str_eq(c, "!M") {
        Some(0x71)
    } else if str_eq(c, "-D") {
        Some(0x0f)
    } else if str_eq(c, "-A") {
        Some(0x33)
    } else if str_eq(c, "-M") {
        Some(0x73)
    } else if str_eq(c, "D+1") {
        Some(0x1f)
    } else if str_eq(c, "A+1") {
        Some(0x37)
    } else if str_eq(c, "M+1") {
        Some(0x77)
    } else if str_eq(c, "D-1") {
        Some(0x0e)
    } else if str_eq(c, "A-1") {
        Some(0x32)
    } else if str_eq(c, "M-1") {
        Some(0x72)
    } else if str_eq(c, "D+A") {
        Some(0x02)
    } else if str_eq(c, "D+M") {
        Some(0x42)
    } else if str_eq(c, "D-A") {
        Some(0x13)
    } else if str_eq(c, "D-M") {
        Some(0x53)
    } else if str_eq(c, "A-D") {
        Some(0x07)
    } else if str_eq(c, "M-D") {
        Some(0x47)
    } else if str_eq(c, "D&A") {
        Some(0x00)
    } else if str_eq(c, "D&M") {
        Some(0x40)
    } else if str_eq(c, "D|A") {
        Some(0x15)
    } else if str_eq(c, "D|M") {
        Some(0x55)
    } else {
        None
    }
}

impl D<'_> {
    pub fn from(s: &str) -> (r: D<'_>)
        ensures
            r.0@ == s@,
    {
        D(s)
    }

    /// Encode the instruction word of a valid compute instruction.
    pub fn resolve(&self) -> (r: u16)
        requires
            d_value(self.0@) is Some,
        ensures
            Some(r) == d_value(self.0@),
    {
        let s = self.0;
        let n = s.unicode_len();
        let mut d: u16 = 0;
        let remaining = match find_char_str(s, '=') {
            Some(i) => {
                let dest = trim_end_str(s.substring_char(0, i));
                if contains_char(dest, 'M') {
                    d = d + 1;
                }
                if contains_char(dest, 'D') {
                    d = d + 2;
                }
                if contains_char(dest, 'A') {
                    d = d + 4;
                }
                trim_start_str(s.substring_char(i + 1, n))
            },
            None => s,
        };
        let rn = remaining.unicode_len();
        let mut j: u16 = 0;
        let comp = match find_char_str(remaining, ';') {
            Some(i) => {
                let jump = trim_start_str(remaining.substring_char(i + 1, rn));
                match jump_ins(jump) {
                    Some(jv) => {
                        j = jv;
                    },
                    None => {
                        proof {
                            assert(false);
                        }
                    },
                }
                trim_end_str(remaining.substring_char(0, i))
            },
            None => remaining,
        };
        let c: u16 = match comp_ins(comp) {
            Some(cv) => cv,
            None => {
                proof {
                    assert(false);
                }
                0
            },
        };
        0xe000 + c * 64 + d * 8 + j
    }
}

// ---------------------------------------------------------------------
// Line classification.
// ---------------------------------------------------------------------

/// One classified source line: an instruction or a label.
pub enum Kind<'a> {
    Instruction(Instruction<'a>),
    Label(Label<'a>),
}

/// Index of the first `//` at or after `k`.
pub open spec fn find_comment(s: Seq<char>, k: int) -> Option<int>
    decreases s.len() - k,
{
    if k < 0 || k + 1 >= s.len() {
        None
    } else if s[k] == '/' && s[k + 1] == '/' {
        Some(k)
    } else {
        find_comment(s, k + 1)
    }
}

/// The line with any `//` comment stripped and whitespace trimmed from
/// both ends.
pub open spec fn line_core(s: Seq<char>) -> Seq<char> {
    let cut = match find_comment(s, 0) {
        Some(j) => j,
        None => s.len() as int,
    };
    spec_trim_start(spec_trim_end(s.subrange(0, cut)))
}

/// Find the first `//` in the slice.
fn find_comment_str(s: &str) -> (r: Option<usize>)
    ensures
        match r {
            Some(j) => find_comment(s@, 0) == Some(j as int) && j < s@.len(),
            None => find_comment(s@, 0) is None,
        },
{
    let n = s.unicode_len();
    let mut j: usize = 0;
    while j < n && j + 1 < n
        invariant
            j <= n,
            n == s@.len(),
            find_comment(s@, 0) == find_comment(s@, j as int),
        decreases n - j,
    {
        if s.get_char(j) == '/' && s.get_char(j + 1) == '/' {
            return Some(j);
        }
        j = j + 1;
    }
    None
}

/// Classify one source line: empty and comment-only lines give nothing,
/// `@...` lines an address instruction, `(...)` lines a label, and
/// anything else a compute instruction.
pub fn parse(line: &str) -> (r: Option<Kind<'_>>)
    ensures
        ({
            let core = line_core(line@);
            match r {
                None => core.len() == 0,
                Some(k) => match k {
                    Kind::Instruction(Instruction::A(a)) => core.len() > 0 && core[0] == '@'
                        && a.0@ == core,
                    Kind::Instruction(Instruction::D(d)) => core.len() > 0 && core[0] != '@' && !(
                    core[0] == '(' && core.last() == ')') && d.0@ == core,
                    Kind::Label(l) => core.len() > 0 && core[0] == '(' && core.last() == ')'
                        && l.0@ == core,
                },
            }
        }),
{
    let n = line.unicode_len();
    let cut = match find_comment_str(line) {
        Some(j) => j,
        None => n,
    };
    let trimmed = trim_start_str(trim_end_str(line.substring_char(0, cut)));
    let tn = trimmed.unicode_len();
    if tn == 0 {
        return None;
    }
    let first = trimmed.get_char(0);
    if first == '@' {
        return Some(Kind::Instruction(Instruction::A(A::from(trimmed))));
    }
    if first == '(' && trimmed.get_char(tn - 1) == ')' {
        return Some(Kind::Label(Label::from(trimmed)));
    }
    Some(Kind::Instruction(Instruction::D(D::from(trimmed))))
}
} // verus!
