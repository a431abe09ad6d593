//! Hotkey names: how a `toggle_key` setting is read into a virtual-key code and
//! how it is written back in its canonical spelling, plus the label defaults.
use vstd::prelude::*;

use crate::text::{
    all_ascii, ascii_lower, is_ascii_char, lemma_ascii_case, lemma_trim_ends, lemma_trim_noop, ascii_lower_exec, ascii_upper, ascii_upper_exec, ascii_upper_seq,
    chars_of, eq_ignore_ascii_case, is_ascii_alphanumeric, is_ascii_digit, is_whitespace,
    char_lower, char_upper, push_char, string_of, to_lowercase_chars, to_uppercase_chars, trim,
    trim_chars,
};

verus! {

/// `none`, `off` (in any ASCII case) and the empty name switch the hotkey off.
pub open spec fn is_off_name(s: Seq<char>) -> bool {
    ||| s.len() == 0
    ||| eq_ignore_ascii_case(s, seq!['n', 'o', 'n', 'e'])
    ||| eq_ignore_ascii_case(s, seq!['o', 'f', 'f'])
}

pub open spec fn digit_value(c: char) -> int {
    (c as u32) - 0x30
}

/// The number written by a sequence of decimal digits.
pub open spec fn decimal_value(d: Seq<char>) -> int
    decreases d.len(),
{
    if d.len() == 0 {
        0
    } else {
        decimal_value(d.drop_last()) * 10 + digit_value(d.last())
    }
}

pub open spec fn all_digits(d: Seq<char>) -> bool {
    forall|i: int| 0 <= i < d.len() ==> is_ascii_digit(#[trigger] d[i])
}

/// The digit part of an unsigned integer literal as `u32::from_str` reads it:
/// one optional leading `+`.
pub open spec fn unsigned_digits(r: Seq<char>) -> Seq<char> {
    if r.len() > 0 && r[0] == '+' {
        r.drop_first()
    } else {
        r
    }
}

/// `F1` .. `F24` (after ASCII upper-casing): `F` followed by an unsigned decimal
/// number between 1 and 24. (`u32::from_str` also rejects numbers above
/// `u32::MAX`, which lie outside 1..=24 anyway.)
pub open spec fn function_key_number(u: Seq<char>) -> Option<int> {
    let d = unsigned_digits(u.drop_first());
    if u.len() > 0 && u[0] == 'F' && d.len() > 0 && all_digits(d) && 1 <= decimal_value(d) <= 24 {
        Some(decimal_value(d))
    } else {
        None
    }
}

/// A single ASCII letter or digit stands for itself.
pub open spec fn is_single_key(u: Seq<char>) -> bool {
    u.len() == 1 && is_ascii_alphanumeric(u[0])
}

/// The named navigation keys (upper-case spellings) and their virtual-key codes.
pub open spec fn named_key_code(u: Seq<char>) -> Option<u32> {
    if u == seq!['I', 'N', 'S', 'E', 'R', 'T'] || u == seq!['I', 'N', 'S'] {
        Some(0x2D)
    } else if u == seq!['D', 'E', 'L', 'E', 'T', 'E'] || u == seq!['D', 'E', 'L'] {
        Some(0x2E)
    } else if u == seq!['H', 'O', 'M', 'E'] {
        Some(0x24)
    } else if u == seq!['E', 'N', 'D'] {
        Some(0x23)
    } else if u == seq!['P', 'A', 'G', 'E', 'U', 'P'] || u == seq!['P', 'G', 'U', 'P'] {
        Some(0x21)
    } else if u == seq!['P', 'A', 'G', 'E', 'D', 'O', 'W', 'N'] || u == seq!['P', 'G', 'D', 'N'] {
        Some(0x22)
    } else {
        None
    }
}

/// The virtual-key code that a hotkey name denotes, if any.
pub open spec fn spec_parse_vk(name: Seq<char>) -> Option<u32> {
    let s = trim(name);
    if is_off_name(s) {
        None
    } else {
        let u = ascii_upper_seq(s);
        match function_key_number(u) {
            Some(n) => Some((0x70 + (n - 1)) as u32),
            None => if is_single_key(u) {
                Some(u[0] as u32)
            } else {
                named_key_code(u)
            },
        }
    }
}

pub open spec fn digit_char(d: int) -> char {
    (d + 0x30) as char
}

/// Decimal text of a number between 1 and 99, without leading zeros.
pub open spec fn decimal_text(n: int) -> Seq<char> {
    if n < 10 {
        seq![digit_char(n)]
    } else {
        seq![digit_char(n / 10), digit_char(n % 10)]
    }
}

/// `char::to_lowercase` of every character, in order.
pub open spec fn lower_all(t: Seq<char>) -> Seq<char>
    decreases t.len(),
{
    if t.len() == 0 {
        Seq::empty()
    } else {
        lower_all(t.drop_last()) + char_lower(t.last())
    }
}

/// The first character upper-cased, the rest lower-cased (`char::to_uppercase`,
/// `char::to_lowercase`).
pub open spec fn title_case(u: Seq<char>) -> Seq<char> {
    char_upper(u[0]) + lower_all(u.drop_first())
}

/// The canonical spelling of a hotkey name.
pub open spec fn normalized(name: Seq<char>) -> Seq<char> {
    let s = trim(name);
    if is_off_name(s) {
        seq!['N', 'o', 'n', 'e']
    } else {
        let u = ascii_upper_seq(s);
        match function_key_number(u) {
            Some(n) => seq!['F'] + decimal_text(n),
            None => if is_single_key(u) {
                u
            } else if u == seq!['I', 'N', 'S'] {
                seq!['I', 'n', 's', 'e', 'r', 't']
            } else if u == seq!['D', 'E', 'L'] {
                seq!['D', 'e', 'l', 'e', 't', 'e']
            } else if u == seq!['P', 'G', 'U', 'P'] {
                seq!['P', 'a', 'g', 'e', 'U', 'p']
            } else if u == seq!['P', 'G', 'D', 'N'] {
                seq!['P', 'a', 'g', 'e', 'D', 'o', 'w', 'n']
            } else {
                title_case(u)
            },
        }
    }
}

/// Whether two character sequences are equal.
fn same_chars(a: &Vec<char>, b: &[char]) -> (r: bool)
    ensures
        r == (a@ == b@),
{
    if a.len() != b.len() {
        return false;
    }
    let mut i: usize = 0;
    while i < a.len()
        invariant
            i <= a.len(),
            a.len() == b@.len(),
            forall|j: int| 0 <= j < i ==> a@[j] == b@[j],
        decreases a.len() - i,
    {
        if a[i] != b[i] {
            return false;
        }
        i += 1;
    }
    assert(a@ =~= b@);
    true
}

/// `eq_ignore_ascii_case` on character sequences.
fn same_ignore_ascii_case(a: &Vec<char>, b: &[char]) -> (r: bool)
    ensures
        r == eq_ignore_ascii_case(a@, b@),
{
    if a.len() != b.len() {
        return false;
    }
    let mut i: usize = 0;
    while i < a.len()
        invariant
            i <= a.len(),
            a.len() == b@.len(),
            forall|j: int| 0 <= j < i ==> ascii_lower(#[trigger] a@[j]) == ascii_lower(b@[j]),
        decreases a.len() - i,
    {
        if ascii_lower_exec(a[i]) != ascii_lower_exec(b[i]) {
            return false;
        }
        i += 1;
    }
    true
}

fn is_off(s: &Vec<char>) -> (r: bool)
    ensures
        r == is_off_name(s@),
{
    s.len() == 0 || same_ignore_ascii_case(s, &['n', 'o', 'n', 'e']) || same_ignore_ascii_case(
        s,
        &['o', 'f', 'f'],
    )
}

fn ascii_upper_vec(s: &Vec<char>) -> (r: Vec<char>)
    ensures
        r@ == ascii_upper_seq(s@),
{
    let mut out: Vec<char> = Vec::new();
    let mut i: usize = 0;
    while i < s.len()
        invariant
            i <= s.len(),
            out@ == ascii_upper_seq(s@.subrange(0, i as int)),
        decreases s.len() - i,
    {
        out.push(ascii_upper_exec(s[i]));
        i += 1;
        assert(out@ =~= ascii_upper_seq(s@.subrange(0, i as int)));
    }
    assert(s@.subrange(0, s.len() as int) =~= s@);
    out
}

fn is_digit_exec(c: char) -> (r: bool)
    ensures
        r == is_ascii_digit(c),
{
    let n = c as u32;
    0x30 <= n && n <= 0x39
}

fn is_alphanumeric_exec(c: char) -> (r: bool)
    ensures
        r == is_ascii_alphanumeric(c),
{
    let n = c as u32;
    (0x30 <= n && n <= 0x39) || (0x41 <= n && n <= 0x5a) || (0x61 <= n && n <= 0x7a)
}

/// The function-key number of an upper-cased name, if it is one.
fn function_key(u: &Vec<char>) -> (r: Option<u32>)
    ensures
        match r {
            Some(n) => function_key_number(u@) == Some(n as int),
            None => function_key_number(u@) is None,
        },
{
    if u.len() < 2 || u[0] != 'F' {
        return None;
    }
    let start: usize = if u[1] == '+' {
        2
    } else {
        1
    };
    let ghost d = unsigned_digits(u@.drop_first());
    assert(d =~= u@.subrange(start as int, u.len() as int));
    if start >= u.len() {
        return None;
    }
    let mut acc: u32 = 0;
    let mut i: usize = start;
    assert(u@.subrange(start as int, start as int) =~= Seq::<char>::empty());
    while i < u.len()
        invariant
            1 <= start <= i <= u.len(),
            d == u@.subrange(start as int, u.len() as int),
            d == unsigned_digits(u@.drop_first()),
            u@.len() >= 2 && u@[0] == 'F',
            all_digits(u@.subrange(start as int, i as int)),
            decimal_value(u@.subrange(start as int, i as int)) <= 24 ==> acc == decimal_value(
                u@.subrange(start as int, i as int),
            ),
            decimal_value(u@.subrange(start as int, i as int)) > 24 ==> 24 < acc <= 249,
            decimal_value(u@.subrange(start as int, i as int)) >= 0,
        decreases u.len() - i,
    {
        let c = u[i];
        if !is_digit_exec(c) {
            assert(d[i - start] == c);
            return None;
        }
        let ghost prev = u@.subrange(start as int, i as int);
        let ghost next = u@.subrange(start as int, i + 1);
        assert(next.drop_last() =~= prev);
        assert(next.last() == c);
        let v = (c as u32) - 0x30;
        if acc <= 24 {
            acc = acc * 10 + v;
        }
        i += 1;
        assert(all_digits(next)) by {
            assert forall|j: int| 0 <= j < next.len() implies is_ascii_digit(#[trigger] next[j]) by {
                if j < prev.len() {
                    assert(next[j] == prev[j]);
                }
            }
        }
    }
    if 1 <= acc && acc <= 24 {
        Some(acc)
    } else {
        None
    }
}

/// Named navigation key code of an upper-cased name.
fn named_key(u: &Vec<char>) -> (r: Option<u32>)
    ensures
        r == named_key_code(u@),
{
    if same_chars(u, &['I', 'N', 'S', 'E', 'R', 'T']) || same_chars(u, &['I', 'N', 'S']) {
        Some(0x2D)
    } else if same_chars(u, &['D', 'E', 'L', 'E', 'T', 'E']) || same_chars(u, &['D', 'E', 'L']) {
        Some(0x2E)
    } else if same_chars(u, &['H', 'O', 'M', 'E']) {
        Some(0x24)
    } else if same_chars(u, &['E', 'N', 'D']) {
        Some(0x23)
    } else if same_chars(u, &['P', 'A', 'G', 'E', 'U', 'P']) || same_chars(u, &['P', 'G', 'U', 'P']) {
        Some(0x21)
    } else if same_chars(u, &['P', 'A', 'G', 'E', 'D', 'O', 'W', 'N']) || same_chars(
        u,
        &['P', 'G', 'D', 'N'],
    ) {
        Some(0x22)
    } else {
        None
    }
}

/// Reads a hotkey name (`"F10"`, `"h"`, `"PgUp"`, ...) into its Windows
/// virtual-key code; `None` for an empty name, `none`/`off`, or a name it does
/// not know.
pub fn parse_vk(name: &str) -> (r: Option<u32>)
    ensures
        r == spec_parse_vk(name@),
{
    let chars = chars_of(name);
    let s = trim_chars(&chars);
    if is_off(&s) {
        return None;
    }
    let u = ascii_upper_vec(&s);
    match function_key(&u) {
        Some(n) => {
            return Some(0x70 + (n - 1));
        },
        None => {},
    }
    if u.len() == 1 && is_alphanumeric_exec(u[0]) {
        return Some(u[0] as u32);
    }
    named_key(&u)
}

/// Appends all the given characters.
fn push_all(out: &mut String, v: &Vec<char>)
    ensures
        final(out)@ == old(out)@ + v@,
{
    let mut i: usize = 0;
    while i < v.len()
        invariant
            i <= v.len(),
            out@ == old(out)@ + v@.subrange(0, i as int),
        decreases v.len() - i,
    {
        push_char(out, v[i]);
        i += 1;
        assert(out@ =~= old(out)@ + v@.subrange(0, i as int));
    }
    assert(v@.subrange(0, v.len() as int) =~= v@);
}

fn digit_exec(d: u32) -> (r: char)
    requires
        d < 10,
    ensures
        r == digit_char(d as int),
{
    let b: u8 = (d + 0x30) as u8;
    let r = b as char;
    assert(r as u32 == d + 0x30);
    r
}

/// `F` followed by the number (1..=24) in decimal.
fn function_key_text(n: u32) -> (r: String)
    requires
        1 <= n <= 24,
    ensures
        r@ == seq!['F'] + decimal_text(n as int),
{
    let mut out = String::new();
    push_char(&mut out, 'F');
    if n >= 10 {
        push_char(&mut out, digit_exec(n / 10));
        push_char(&mut out, digit_exec(n % 10));
        assert(out@ =~= seq!['F'] + decimal_text(n as int));
    } else {
        push_char(&mut out, digit_exec(n));
        assert(out@ =~= seq!['F'] + decimal_text(n as int));
    }
    out
}

/// First character upper-cased, the rest lower-cased.
fn title_case_text(u: &Vec<char>) -> (r: String)
    requires
        u.len() > 0,
    ensures
        r@ == title_case(u@),
{
    let mut out = String::new();
    let first = to_uppercase_chars(u[0]);
    push_all(&mut out, &first);
    assert(out@ =~= char_upper(u@[0]));
    let mut i: usize = 1;
    assert(u@.subrange(1, 1) =~= Seq::<char>::empty());
    while i < u.len()
        invariant
            1 <= i <= u.len(),
            out@ == char_upper(u@[0]) + lower_all(u@.subrange(1, i as int)),
        decreases u.len() - i,
    {
        let lowered = to_lowercase_chars(u[i]);
        push_all(&mut out, &lowered);
        proof {
            let next = u@.subrange(1, i + 1);
            assert(next.drop_last() =~= u@.subrange(1, i as int));
            assert(next.last() == u@[i as int]);
            assert(out@ =~= char_upper(u@[0]) + lower_all(next));
        }
        i += 1;
    }
    assert(u@.subrange(1, u.len() as int) =~= u@.drop_first());
    out
}

fn literal_string(s: &str) -> (r: String)
    ensures
        r@ == s@,
{
    String::from_str(s)
}

/// The canonical spelling of a hotkey name: `None` when switched off, `F1`..`F24`,
/// a single upper-case letter or digit, `Insert`/`Delete`/`PageUp`/`PageDown` for
/// their short forms, and otherwise the name with its first character
/// upper-cased and the rest lower-cased.
pub fn normalize_name(name: &str) -> (r: String)
    ensures
        r@ == normalized(name@),
{
    let chars = chars_of(name);
    let s = trim_chars(&chars);
    if is_off(&s) {
        let r = literal_string("None");
        proof {
            reveal_strlit("None");
        }
        assert(r@ =~= seq!['N', 'o', 'n', 'e']);
        return r;
    }
    let u = ascii_upper_vec(&s);
    match function_key(&u) {
        Some(n) => {
            return function_key_text(n);
        },
        None => {},
    }
    if u.len() == 1 && is_alphanumeric_exec(u[0]) {
        return string_of(&u);
    }
    if same_chars(&u, &['I', 'N', 'S']) {
        let r = literal_string("Insert");
        proof {
            reveal_strlit("Insert");
        }
        assert(r@ =~= seq!['I', 'n', 's', 'e', 'r', 't']);
        r
    } else if same_chars(&u, &['D', 'E', 'L']) {
        let r = literal_string("Delete");
        proof {
            reveal_strlit("Delete");
        }
        assert(r@ =~= seq!['D', 'e', 'l', 'e', 't', 'e']);
        r
    } else if same_chars(&u, &['P', 'G', 'U', 'P']) {
        let r = literal_string("PageUp");
        proof {
            reveal_strlit("PageUp");
        }
        assert(r@ =~= seq!['P', 'a', 'g', 'e', 'U', 'p']);
        r
    } else if same_chars(&u, &['P', 'G', 'D', 'N']) {
        let r = literal_string("PageDown");
        proof {
            reveal_strlit("PageDown");
        }
        assert(r@ =~= seq!['P', 'a', 'g', 'e', 'D', 'o', 'w', 'n']);
        r
    } else {
        assert(u@.len() > 0);
        title_case_text(&u)
    }
}

/// `Total`
pub open spec fn total_label_text() -> Seq<char> {
    seq!['T', 'o', 't', 'a', 'l']
}

/// `Parent 1`
pub open spec fn parent1_label_text() -> Seq<char> {
    seq!['P', 'a', 'r', 'e', 'n', 't', ' ', '1']
}

/// `Parent 2`
pub open spec fn parent2_label_text() -> Seq<char> {
    seq!['P', 'a', 'r', 'e', 'n', 't', ' ', '2']
}

/// `P`, the hotkey when none is configured.
pub open spec fn toggle_key_text() -> Seq<char> {
    seq!['P']
}

pub fn default_label_total() -> (r: String)
    ensures
        r@ == total_label_text(),
{
    let r = literal_string("Total");
    proof {
        reveal_strlit("Total");
    }
    assert(r@ =~= total_label_text());
    r
}

pub fn default_label_p1() -> (r: String)
    ensures
        r@ == parent1_label_text(),
{
    let r = literal_string("Parent 1");
    proof {
        reveal_strlit("Parent 1");
    }
    assert(r@ =~= parent1_label_text());
    r
}

pub fn default_label_p2() -> (r: String)
    ensures
        r@ == parent2_label_text(),
{
    let r = literal_string("Parent 2");
    proof {
        reveal_strlit("Parent 2");
    }
    assert(r@ =~= parent2_label_text());
    r
}

pub fn default_toggle_key() -> (r: String)
    ensures
        r@ == toggle_key_text(),
{
    let r = literal_string("P");
    proof {
        reveal_strlit("P");
    }
    assert(r@ =~= toggle_key_text());
    r
}

/// The badge captions as stored in the settings file.
pub struct BadgeLabels {
    pub total: String,
    pub parent_1: String,
    pub parent_2: String,
}

impl Default for BadgeLabels {
    fn default() -> (r: Self)
        ensures
            r.total@ == total_label_text(),
            r.parent_1@ == parent1_label_text(),
            r.parent_2@ == parent2_label_text(),
    {
        BadgeLabels {
            total: default_label_total(),
            parent_1: default_label_p1(),
            parent_2: default_label_p2(),
        }
    }
}

/// The settings other than the badge layout: whether the overlay shows, the
/// hotkey's name, and the badge captions.
pub struct Settings {
    pub enabled: bool,
    pub toggle_key: String,
    pub labels: BadgeLabels,
}

proof fn lemma_lower_all_ascii(t: Seq<char>)
    requires
        all_ascii(t),
    ensures
        lower_all(t) == t.map_values(|c: char| ascii_lower(c)),
    decreases t.len(),
{
    if t.len() > 0 {
        let f = |c: char| ascii_lower(c);
        assert(all_ascii(t.drop_last())) by {
            assert forall|i: int| 0 <= i < t.drop_last().len() implies is_ascii_char(
                #[trigger] t.drop_last()[i],
            ) by {
                assert(t.drop_last()[i] == t[i]);
            }
        }
        lemma_lower_all_ascii(t.drop_last());
        assert(is_ascii_char(t[t.len() - 1]));
        assert(t.drop_last().map_values(f) + seq![ascii_lower(t.last())] =~= t.map_values(f));
    }
}

/// `none`/`off` is recognised regardless of ASCII case.
proof fn lemma_off_ignores_case(a: Seq<char>, b: Seq<char>)
    requires
        a.len() == b.len(),
        forall|i: int| 0 <= i < a.len() ==> ascii_lower(#[trigger] a[i]) == ascii_lower(b[i]),
    ensures
        is_off_name(a) == is_off_name(b),
{
    let none = seq!['n', 'o', 'n', 'e'];
    let off = seq!['o', 'f', 'f'];
    assert forall|i: int| 0 <= i < b.len() implies ascii_lower(#[trigger] b[i]) == ascii_lower(
        a[i],
    ) by {
        assert(ascii_lower(a[i]) == ascii_lower(b[i]));
    }
    if eq_ignore_ascii_case(a, none) {
        lemma_eq_ignore_case_transfer(a, b, none);
    }
    if eq_ignore_ascii_case(b, none) {
        lemma_eq_ignore_case_transfer(b, a, none);
    }
    if eq_ignore_ascii_case(a, off) {
        lemma_eq_ignore_case_transfer(a, b, off);
    }
    if eq_ignore_ascii_case(b, off) {
        lemma_eq_ignore_case_transfer(b, a, off);
    }
}

proof fn lemma_eq_ignore_case_transfer(a: Seq<char>, b: Seq<char>, w: Seq<char>)
    requires
        a.len() == b.len(),
        forall|i: int| 0 <= i < a.len() ==> ascii_lower(#[trigger] a[i]) == ascii_lower(b[i]),
        eq_ignore_ascii_case(a, w),
    ensures
        eq_ignore_ascii_case(b, w),
{
    assert forall|i: int| 0 <= i < b.len() implies ascii_lower(#[trigger] b[i]) == ascii_lower(
        w[i],
    ) by {
        assert(ascii_lower(a[i]) == ascii_lower(b[i]));
        assert(ascii_lower(a[i]) == ascii_lower(w[i]));
    }
}

proof fn lemma_decimal_text(n: int)
    requires
        1 <= n <= 24,
    ensures
        decimal_text(n).len() > 0,
        decimal_text(n)[0] != '+',
        all_digits(decimal_text(n)),
        decimal_value(decimal_text(n)) == n,
        !is_whitespace(decimal_text(n).last()),
        ascii_upper_seq(decimal_text(n)) == decimal_text(n),
{
    let t = decimal_text(n);
    assert(decimal_value(Seq::<char>::empty()) == 0);
    if n < 10 {
        assert(t.drop_last() =~= Seq::<char>::empty());
        assert(digit_value(digit_char(n)) == n);
    } else {
        assert(t.drop_last() =~= seq![digit_char(n / 10)]);
        assert(t.drop_last().drop_last() =~= Seq::<char>::empty());
        assert(digit_value(digit_char(n / 10)) == n / 10);
        assert(digit_value(digit_char(n % 10)) == n % 10);
        assert(decimal_value(t.drop_last()) == n / 10);
    }
    assert(ascii_upper_seq(t) =~= t);
}

/// The spelling and the key of a name in its general form: the first
/// character upper-cased, the others lower-cased (all ASCII).
proof fn lemma_title_case_ascii(s: Seq<char>)
    requires
        s.len() > 0,
        all_ascii(s),
        !is_whitespace(s[0]),
        !is_whitespace(s.last()),
    ensures
        ({
            let u = ascii_upper_seq(s);
            let n = title_case(u);
            &&& n.len() == s.len()
            &&& trim(n) == n
            &&& ascii_upper_seq(n) == u
            &&& forall|i: int| 0 <= i < n.len() ==> ascii_lower(#[trigger] n[i]) == ascii_lower(s[i])
        }),
{
    let u = ascii_upper_seq(s);
    let rest = u.drop_first();
    assert forall|i: int| 0 <= i < u.len() implies is_ascii_char(#[trigger] u[i]) by {
        lemma_ascii_case(s[i]);
    }
    assert(all_ascii(rest)) by {
        assert forall|i: int| 0 <= i < rest.len() implies is_ascii_char(#[trigger] rest[i]) by {
            assert(rest[i] == u[i + 1]);
        }
    }
    lemma_lower_all_ascii(rest);
    let n = title_case(u);
    assert(n.len() == s.len());
    assert forall|i: int| 0 <= i < n.len() implies {
        &&& ascii_lower(#[trigger] n[i]) == ascii_lower(s[i])
        &&& ascii_upper(n[i]) == u[i]
        &&& is_whitespace(n[i]) == is_whitespace(s[i])
    } by {
        lemma_ascii_case(s[i]);
        lemma_ascii_case(ascii_upper(s[i]));
        if i == 0 {
            assert(n[0] == ascii_upper(u[0]));
        } else {
            assert(n[i] == ascii_lower(rest[i - 1]));
            assert(rest[i - 1] == u[i]);
        }
    }
    assert(n[n.len() - 1] == n.last());
    lemma_trim_noop(n);
    assert(ascii_upper_seq(n) =~= u);
}

/// How one of the named keys written out in full reads back: as itself, and
/// (upper-cased) as the full upper-case word.
proof fn lemma_named_spelling(w: Seq<char>)
    requires
        w == seq!['I', 'n', 's', 'e', 'r', 't'] || w == seq!['D', 'e', 'l', 'e', 't', 'e'] || w
            == seq!['P', 'a', 'g', 'e', 'U', 'p'] || w == seq!['P', 'a', 'g', 'e', 'D', 'o', 'w', 'n'],
    ensures
        trim(w) == w,
        !is_off_name(w),
        w == seq!['I', 'n', 's', 'e', 'r', 't'] ==> ascii_upper_seq(w) == seq![
            'I',
            'N',
            'S',
            'E',
            'R',
            'T',
        ] && normalized(w) == w,
        w == seq!['D', 'e', 'l', 'e', 't', 'e'] ==> ascii_upper_seq(w) == seq![
            'D',
            'E',
            'L',
            'E',
            'T',
            'E',
        ] && normalized(w) == w,
        w == seq!['P', 'a', 'g', 'e', 'U', 'p'] ==> ascii_upper_seq(w) == seq![
            'P',
            'A',
            'G',
            'E',
            'U',
            'P',
        ],
        w == seq!['P', 'a', 'g', 'e', 'D', 'o', 'w', 'n'] ==> ascii_upper_seq(w) == seq![
            'P',
            'A',
            'G',
            'E',
            'D',
            'O',
            'W',
            'N',
        ],
{
    assert(w[w.len() - 1] == w.last());
    lemma_trim_noop(w);
    let u = ascii_upper_seq(w);
    if w == seq!['I', 'n', 's', 'e', 'r', 't'] {
        assert(u =~= seq!['I', 'N', 'S', 'E', 'R', 'T']);
        assert(all_ascii(u.drop_first()));
        lemma_lower_all_ascii(u.drop_first());
        assert(title_case(u) =~= w);
    } else if w == seq!['D', 'e', 'l', 'e', 't', 'e'] {
        assert(u =~= seq!['D', 'E', 'L', 'E', 'T', 'E']);
        assert(all_ascii(u.drop_first()));
        lemma_lower_all_ascii(u.drop_first());
        assert(title_case(u) =~= w);
    } else if w == seq!['P', 'a', 'g', 'e', 'U', 'p'] {
        assert(u =~= seq!['P', 'A', 'G', 'E', 'U', 'P']);
    } else {
        assert(u =~= seq!['P', 'A', 'G', 'E', 'D', 'O', 'W', 'N']);
    }
}

/// Normalising a hotkey name twice gives the same spelling as normalising it
/// once: the spelling written to the settings file reads back unchanged. Stated
/// for names whose trimmed text is ASCII (the Unicode case mappings applied to
/// other names are not stated here), except the short forms `PgUp` and `PgDn`,
/// whose spellings `PageUp`/`PageDown` read back as `Pageup`/`Pagedown`.
pub proof fn lemma_normalize_idempotent(name: Seq<char>)
    requires
        all_ascii(trim(name)),
        ascii_upper_seq(trim(name)) != seq!['P', 'G', 'U', 'P'],
        ascii_upper_seq(trim(name)) != seq!['P', 'G', 'D', 'N'],
    ensures
        normalized(normalized(name)) == normalized(name),
{
    let s = trim(name);
    let n = normalized(name);
    lemma_trim_ends(name);
    if is_off_name(s) {
        assert(n[n.len() - 1] == n.last());
        lemma_trim_noop(n);
        assert(eq_ignore_ascii_case(n, seq!['n', 'o', 'n', 'e']));
    } else {
        let u = ascii_upper_seq(s);
        match function_key_number(u) {
            Some(k) => {
                lemma_decimal_text(k);
                let t = decimal_text(k);
                assert(n.drop_first() =~= t);
                assert(n[n.len() - 1] == t.last());
                lemma_trim_noop(n);
                assert(!eq_ignore_ascii_case(n, seq!['o', 'f', 'f']));
                assert(ascii_upper_seq(n) =~= n);
                assert(unsigned_digits(n.drop_first()) == t);
            },
            None => {
                if is_single_key(u) {
                    lemma_ascii_case(s[0]);
                    assert(n[n.len() - 1] == n.last());
                    lemma_trim_noop(n);
                    assert(ascii_upper_seq(n) =~= n);
                    assert(n.drop_first() =~= Seq::<char>::empty());
                } else if u == seq!['I', 'N', 'S'] || u == seq!['D', 'E', 'L'] {
                    lemma_named_spelling(n);
                } else {
                    assert(s[s.len() - 1] == s.last());
                    lemma_title_case_ascii(s);
                    lemma_off_ignores_case(n, s);
                }
            },
        }
    }
}

/// The key code of a hotkey name is the key code of its normalised spelling:
/// saving the spelling does not change the hotkey. Stated for names whose
/// trimmed text is ASCII.
pub proof fn lemma_normalize_keeps_key(name: Seq<char>)
    requires
        all_ascii(trim(name)),
    ensures
        spec_parse_vk(normalized(name)) == spec_parse_vk(name),
{
    let s = trim(name);
    let n = normalized(name);
    lemma_trim_ends(name);
    if is_off_name(s) {
        assert(n[n.len() - 1] == n.last());
        lemma_trim_noop(n);
        assert(eq_ignore_ascii_case(n, seq!['n', 'o', 'n', 'e']));
    } else {
        let u = ascii_upper_seq(s);
        match function_key_number(u) {
            Some(k) => {
                lemma_decimal_text(k);
                let t = decimal_text(k);
                assert(n.drop_first() =~= t);
                assert(n[n.len() - 1] == t.last());
                lemma_trim_noop(n);
                assert(!eq_ignore_ascii_case(n, seq!['o', 'f', 'f']));
                assert(ascii_upper_seq(n) =~= n);
                assert(unsigned_digits(n.drop_first()) == t);
            },
            None => {
                if is_single_key(u) {
                    lemma_ascii_case(s[0]);
                    assert(n[n.len() - 1] == n.last());
                    lemma_trim_noop(n);
                    assert(ascii_upper_seq(n) =~= n);
                    assert(n.drop_first() =~= Seq::<char>::empty());
                } else if u == seq!['I', 'N', 'S'] || u == seq!['D', 'E', 'L'] || u == seq![
                    'P',
                    'G',
                    'U',
                    'P',
                ] || u == seq!['P', 'G', 'D', 'N'] {
                    lemma_named_spelling(n);
                    let v = ascii_upper_seq(n);
                    if u == seq!['I', 'N', 'S'] {
                        assert(v =~= seq!['I', 'N', 'S', 'E', 'R', 'T']);
                    } else if u == seq!['D', 'E', 'L'] {
                        assert(v =~= seq!['D', 'E', 'L', 'E', 'T', 'E']);
                    } else if u == seq!['P', 'G', 'U', 'P'] {
                        assert(v =~= seq!['P', 'A', 'G', 'E', 'U', 'P']);
                    } else {
                        assert(v =~= seq!['P', 'A', 'G', 'E', 'D', 'O', 'W', 'N']);
                    }
                } else {
                    assert(s[s.len() - 1] == s.last());
                    lemma_title_case_ascii(s);
                    lemma_off_ignores_case(n, s);
                }
            },
        }
    }
}

} // verus!
