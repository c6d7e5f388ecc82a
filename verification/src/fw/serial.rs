//! The line commands of the early serial console: `LIST`, `INFO`, `PAGE`,
//! `UPLOAD <name> <size>` and `DELETE <name>`, one per line.

use vstd::prelude::*;
use vstd::string::*;
use vstd::utf8::{encode_utf8, valid_utf8};
use crate::protocol::store::utf8_str;

verus! {

// ---------------------------------------------------------------------------
// Characters and numbers
// ---------------------------------------------------------------------------

/// Whether a character has Unicode's `White_Space` property.
pub uninterp spec fn white_space(c: char) -> bool;

/// `char::is_whitespace`: whether `c` has Unicode's `White_Space` property.
/// Beyond naming that property, the contract states only the cases that the
/// method's documentation gives as examples: the space, the line feed and
/// the no-break space are white space, and `'越'` is not.
#[verifier::external_body]
fn is_white(c: char) -> (r: bool)
    ensures
        r == white_space(c),
        (c == ' ' || c == '\n' || c == '\u{A0}') ==> r,
        c == '越' ==> !r,
{
    c.is_whitespace()
}

/// Whether `c` is one of the ASCII digits `0` to `9`.
pub open spec fn is_digit(c: char) -> bool {
    '0' <= c && c <= '9'
}

/// The value of a run of decimal digits, most significant first.
pub open spec fn digits_value(d: Seq<char>) -> int
    decreases d.len(),
{
    if d.len() == 0 {
        0
    } else {
        digits_value(d.drop_last()) * 10 + (d.last() as int - '0' as int)
    }
}

/// What `u32::from_str` makes of `s`: an optional `+` followed by at least
/// one ASCII digit, whose value fits in a `u32`; nothing else parses.
pub open spec fn decimal_u32(s: Seq<char>) -> Option<u32> {
    let d = if s.len() > 0 && s[0] == '+' {
        s.drop_first()
    } else {
        s
    };
    if d.len() > 0 && (forall|i: int| 0 <= i < d.len() ==> is_digit(#[trigger] d[i]))
        && digits_value(d) <= u32::MAX {
        Some(digits_value(d) as u32)
    } else {
        None
    }
}

/// `u32::from_str`: the decimal number `s` spells, if it spells one.
#[verifier::external_body]
fn parse_decimal_u32(s: &str) -> (r: Option<u32>)
    ensures
        r == decimal_u32(s@),
{
    s.parse::<u32>().ok()
}

// ---------------------------------------------------------------------------
// White space
// ---------------------------------------------------------------------------

/// `a` is where the white space at the start of `s` ends.
pub open spec fn is_lead(s: Seq<char>, a: int) -> bool {
    &&& 0 <= a <= s.len()
    &&& forall|j: int| 0 <= j < a ==> white_space(#[trigger] s[j])
    &&& (a == s.len() || !white_space(s[a]))
}

/// Where the white space at the start of `s` ends.
pub open spec fn lead(s: Seq<char>) -> int {
    choose|a: int| is_lead(s, a)
}

/// `e` is where the word that starts at `a` in `s` ends: at the first white
/// space from `a` on, or at the end.
pub open spec fn is_word_end(s: Seq<char>, a: int, e: int) -> bool {
    &&& a <= e <= s.len()
    &&& forall|j: int| a <= j < e ==> !white_space(#[trigger] s[j])
    &&& (e == s.len() || white_space(s[e]))
}

/// Where the word that starts at `a` in `s` ends.
pub open spec fn word_end(s: Seq<char>, a: int) -> int {
    choose|e: int| is_word_end(s, a, e)
}

/// `b` is where `s` ends once the white space at its end, after `a`, is cut.
pub open spec fn is_trail(s: Seq<char>, a: int, b: int) -> bool {
    &&& a <= b <= s.len()
    &&& forall|j: int| b <= j < s.len() ==> white_space(#[trigger] s[j])
    &&& (b == a || !white_space(s[b - 1]))
}

/// Where `s` ends once the white space at its end, after `a`, is cut.
pub open spec fn trail(s: Seq<char>, a: int) -> int {
    choose|b: int| is_trail(s, a, b)
}

/// `s` without the white space at its start and its end, as `str::trim`
/// leaves it.
pub open spec fn trimmed(s: Seq<char>) -> Seq<char> {
    s.subrange(lead(s), trail(s, lead(s)))
}

/// The index at which the white space at the start of `s` ends.
fn skip_white(s: &str, from: usize, n: usize) -> (r: usize)
    requires
        n == s@.len(),
        from <= n,
    ensures
        from <= r <= n,
        forall|j: int| from <= j < r ==> white_space(#[trigger] s@[j]),
        r == n || !white_space(s@[r as int]),
{
    let mut a = from;
    while a < n && is_white(s.get_char(a))
        invariant
            n == s@.len(),
            from <= a <= n,
            forall|j: int| from <= j < a ==> white_space(#[trigger] s@[j]),
        decreases n - a,
    {
        a = a + 1;
    }
    a
}

/// The index at which the word starting at `from` ends.
fn skip_word(s: &str, from: usize, n: usize) -> (r: usize)
    requires
        n == s@.len(),
        from <= n,
    ensures
        is_word_end(s@, from as int, r as int),
{
    let mut e = from;
    while e < n && !is_white(s.get_char(e))
        invariant
            n == s@.len(),
            from <= e <= n,
            forall|j: int| from <= j < e ==> !white_space(#[trigger] s@[j]),
        decreases n - e,
    {
        e = e + 1;
    }
    e
}

proof fn lemma_lead(s: Seq<char>, a: int)
    requires
        is_lead(s, a),
    ensures
        lead(s) == a,
{
    let b = lead(s);
    assert(is_lead(s, b));
    if b < a {
        assert(white_space(s[b]));
    } else if b > a {
        assert(white_space(s[a]));
    }
}

proof fn lemma_word_end(s: Seq<char>, a: int, e: int)
    requires
        is_word_end(s, a, e),
    ensures
        word_end(s, a) == e,
{
    let b = word_end(s, a);
    assert(is_word_end(s, a, b));
    if b < e {
        assert(!white_space(s[b]));
    } else if b > e {
        assert(!white_space(s[e]));
    }
}

proof fn lemma_trail(s: Seq<char>, a: int, b: int)
    requires
        is_trail(s, a, b),
    ensures
        trail(s, a) == b,
{
    let c = trail(s, a);
    assert(is_trail(s, a, c));
    if c < b {
        assert(white_space(s[b - 1]));
    } else if c > b {
        assert(white_space(s[c - 1]));
    }
}

/// `s` without the white space at its start and its end.
pub fn trim(s: &str) -> (r: &str)
    ensures
        r@ == trimmed(s@),
{
    let n = s.unicode_len();
    let a = skip_white(s, 0, n);
    proof {
        lemma_lead(s@, a as int);
    }
    let mut b = n;
    while b > a && is_white(s.get_char(b - 1))
        invariant
            n == s@.len(),
            a <= b <= n,
            forall|j: int| b <= j < n ==> white_space(#[trigger] s@[j]),
        decreases b - a,
    {
        b = b - 1;
    }
    proof {
        lemma_trail(s@, a as int, b as int);
    }
    s.substring_char(a, b)
}

// ---------------------------------------------------------------------------
// Commands
// ---------------------------------------------------------------------------

#[derive(Debug, Clone, Copy, PartialEq, Eq)]
pub enum Command<'a> {
    List,
    Upload { name: &'a str, size: u32 },
    Delete { name: &'a str },
    Info,
    Page,
    Unknown,
}

/// A command with its names as character sequences.
pub enum CommandModel {
    List,
    Upload { name: Seq<char>, size: u32 },
    Delete { name: Seq<char> },
    Info,
    Page,
    Unknown,
}

pub open spec fn command_model(c: Command) -> CommandModel {
    match c {
        Command::List => CommandModel::List,
        Command::Upload { name, size } => CommandModel::Upload { name: name@, size },
        Command::Delete { name } => CommandModel::Delete { name: name@ },
        Command::Info => CommandModel::Info,
        Command::Page => CommandModel::Page,
        Command::Unknown => CommandModel::Unknown,
    }
}

/// Whether `s` begins with the characters of `prefix`.
pub open spec fn starts_with(s: Seq<char>, prefix: Seq<char>) -> bool {
    s.len() >= prefix.len() && s.take(prefix.len() as int) == prefix
}

/// What follows `UPLOAD `: exactly two words, a name and a decimal size.
pub open spec fn upload_model(rest: Seq<char>) -> CommandModel {
    let a0 = lead(rest);
    let e0 = word_end(rest, a0);
    let r1 = rest.skip(e0);
    let a1 = lead(r1);
    let e1 = word_end(r1, a1);
    let r2 = r1.skip(e1);
    if a0 == rest.len() || a1 == r1.len() || lead(r2) < r2.len() {
        CommandModel::Unknown
    } else {
        match decimal_u32(r1.subrange(a1, e1)) {
            Some(size) => CommandModel::Upload { name: rest.subrange(a0, e0), size },
            None => CommandModel::Unknown,
        }
    }
}

/// The command a line spells once trimmed: one of the three bare words, an
/// upload, or a delete with a nonempty name; anything else is unknown.
pub open spec fn command_of(line: Seq<char>) -> CommandModel {
    let t = trimmed(line);
    if t == seq!['L', 'I', 'S', 'T'] {
        CommandModel::List
    } else if t == seq!['I', 'N', 'F', 'O'] {
        CommandModel::Info
    } else if t == seq!['P', 'A', 'G', 'E'] {
        CommandModel::Page
    } else if starts_with(t, seq!['U', 'P', 'L', 'O', 'A', 'D', ' ']) {
        upload_model(t.skip(7))
    } else if starts_with(t, seq!['D', 'E', 'L', 'E', 'T', 'E', ' ']) {
        let name = trimmed(t.skip(7));
        if name.len() == 0 {
            CommandModel::Unknown
        } else {
            CommandModel::Delete { name }
        }
    } else {
        CommandModel::Unknown
    }
}

/// Whether the characters of `s` from `at` on begin with `word`.
fn has_at(s: &str, n: usize, at: usize, word: &[char]) -> (r: bool)
    requires
        n == s@.len(),
        at <= n,
    ensures
        r == (at + word@.len() <= n && s@.subrange(at as int, at + word@.len()) == word@),
{
    if word.len() > n - at {
        return false;
    }
    let mut i: usize = 0;
    while i < word.len()
        invariant
            n == s@.len(),
            at + word@.len() <= n,
            i <= word@.len(),
            forall|j: int| 0 <= j < i ==> s@[at + j] == word@[j],
        decreases word@.len() - i,
    {
        if s.get_char(at + i) != word[i] {
            assert(s@.subrange(at as int, at + word@.len())[i as int] != word@[i as int]);
            return false;
        }
        i = i + 1;
    }
    assert(s@.subrange(at as int, at + word@.len()) =~= word@);
    true
}

/// Reads what follows `UPLOAD `.
fn parse_upload(rest: &str) -> (r: Command<'_>)
    ensures
        command_model(r) == upload_model(rest@),
{
    let n = rest.unicode_len();
    let a0 = skip_white(rest, 0, n);
    let e0 = skip_word(rest, a0, n);
    proof {
        lemma_lead(rest@, a0 as int);
        lemma_word_end(rest@, a0 as int, e0 as int);
    }
    let r1 = rest.substring_char(e0, n);
    let n1 = r1.unicode_len();
    let a1 = skip_white(r1, 0, n1);
    let e1 = skip_word(r1, a1, n1);
    proof {
        assert(r1@ =~= rest@.skip(e0 as int));
        lemma_lead(r1@, a1 as int);
        lemma_word_end(r1@, a1 as int, e1 as int);
    }
    let r2 = r1.substring_char(e1, n1);
    let n2 = r2.unicode_len();
    let a2 = skip_white(r2, 0, n2);
    proof {
        assert(r2@ =~= r1@.skip(e1 as int));
        lemma_lead(r2@, a2 as int);
    }
    if a0 == n || a1 == n1 || a2 < n2 {
        return Command::Unknown;
    }
    let size_text = r1.substring_char(a1, e1);
    match parse_decimal_u32(size_text) {
        Some(size) => Command::Upload { name: rest.substring_char(a0, e0), size },
        None => Command::Unknown,
    }
}

/// Reads one line of the console.
pub fn parse_command(line: &str) -> (r: Command<'_>)
    ensures
        command_model(r) == command_of(line@),
{
    let t = trim(line);
    let n = t.unicode_len();
    let list = ['L', 'I', 'S', 'T'];
    let info = ['I', 'N', 'F', 'O'];
    let page = ['P', 'A', 'G', 'E'];
    let upload = ['U', 'P', 'L', 'O', 'A', 'D', ' '];
    let delete = ['D', 'E', 'L', 'E', 'T', 'E', ' '];
    assert(list@ =~= seq!['L', 'I', 'S', 'T']);
    assert(info@ =~= seq!['I', 'N', 'F', 'O']);
    assert(page@ =~= seq!['P', 'A', 'G', 'E']);
    assert(upload@ =~= seq!['U', 'P', 'L', 'O', 'A', 'D', ' ']);
    assert(delete@ =~= seq!['D', 'E', 'L', 'E', 'T', 'E', ' ']);
    assert(t@.subrange(0, t@.len() as int) =~= t@);
    if n == 4 && has_at(t, n, 0, list.as_slice()) {
        return Command::List;
    }
    if n == 4 && has_at(t, n, 0, info.as_slice()) {
        return Command::Info;
    }
    if n == 4 && has_at(t, n, 0, page.as_slice()) {
        return Command::Page;
    }
    if has_at(t, n, 0, upload.as_slice()) {
        assert(t@.take(7) =~= t@.subrange(0, 7));
        let rest = t.substring_char(7, n);
        assert(rest@ =~= t@.skip(7));
        return parse_upload(rest);
    }
    if has_at(t, n, 0, delete.as_slice()) {
        assert(t@.take(7) =~= t@.subrange(0, 7));
        let rest = t.substring_char(7, n);
        assert(rest@ =~= t@.skip(7));
        let name = trim(rest);
        if name.unicode_len() == 0 {
            return Command::Unknown;
        }
        return Command::Delete { name };
    }
    proof {
        if starts_with(t@, upload@) {
            assert(t@.take(7) =~= t@.subrange(0, 7));
        }
        if starts_with(t@, delete@) {
            assert(t@.take(7) =~= t@.subrange(0, 7));
        }
    }
    Command::Unknown
}

// ---------------------------------------------------------------------------
// Line assembly
// ---------------------------------------------------------------------------

/// What feeding bytes ended with: a complete line (without its newline), or
/// a line longer than the buffer.
pub enum FeedOutcome {
    Line(Seq<u8>),
    Overflow,
}

/// Feeding `bytes` to a console holding `pending` in a buffer of `cap`
/// bytes: bytes are added until a newline completes the line, or a byte
/// arrives with the buffer full, which discards the line and that byte.
/// Either way the buffer is emptied and the bytes after that point are not
/// looked at.
pub open spec fn fed(pending: Seq<u8>, bytes: Seq<u8>, cap: nat) -> (Seq<u8>, Option<FeedOutcome>)
    decreases bytes.len(),
{
    if bytes.len() == 0 {
        (pending, None)
    } else if bytes[0] == 10 {
        (Seq::empty(), Some(FeedOutcome::Line(pending)))
    } else if pending.len() >= cap {
        (Seq::empty(), Some(FeedOutcome::Overflow))
    } else {
        fed(pending.push(bytes[0]), bytes.drop_first(), cap)
    }
}

/// Feeding bytes in pieces is feeding them at once: when the first piece
/// completes no line, the second piece continues from where it left the
/// buffer.
pub proof fn lemma_feed_in_pieces(pending: Seq<u8>, first: Seq<u8>, second: Seq<u8>, cap: nat)
    requires
        fed(pending, first, cap).1 is None,
    ensures
        fed(pending, first + second, cap) == fed(fed(pending, first, cap).0, second, cap),
    decreases first.len(),
{
    if first.len() == 0 {
        assert(first + second =~= second);
    } else {
        assert((first + second)[0] == first[0]);
        assert((first + second).drop_first() =~= first.drop_first() + second);
        lemma_feed_in_pieces(pending.push(first[0]), first.drop_first(), second, cap);
    }
}

/// The command a complete line spells: the command of its text when it is
/// valid UTF-8, unknown otherwise.
pub open spec fn line_command(line: Seq<u8>, c: CommandModel) -> bool {
    if valid_utf8(line) {
        exists|text: Seq<char>| encode_utf8(text) == line && c == command_of(text)
    } else {
        c == CommandModel::Unknown
    }
}

/// The console's line buffer of `N` bytes.
pub struct SerialState<const N: usize> {
    buf: Vec<u8>,
    len: usize,
}

impl<const N: usize> View for SerialState<N> {
    type V = Seq<u8>;

    /// The bytes of the line so far.
    closed spec fn view(&self) -> Seq<u8> {
        self.buf@.take(self.len as int)
    }
}

impl<const N: usize> SerialState<N> {
    pub closed spec fn wf(&self) -> bool {
        &&& self.buf@.len() == N
        &&& self.len <= N
    }

    pub fn new() -> (r: Self)
        ensures
            r.wf(),
            r@ == Seq::<u8>::empty(),
    {
        let r = SerialState { buf: vec![0u8; N], len: 0 };
        assert(r@ =~= Seq::<u8>::empty());
        r
    }

    /// Feeds received bytes; returns the command of the line they complete,
    /// `Unknown` for a line too long for the buffer, or nothing while the
    /// line goes on.
    pub fn feed(&mut self, bytes: &[u8]) -> (r: Option<Command<'_>>)
        requires
            old(self).wf(),
        ensures
            final(self).wf(),
            final(self)@ == fed(old(self)@, bytes@, N as nat).0,
            match fed(old(self)@, bytes@, N as nat).1 {
                None => r is None,
                Some(FeedOutcome::Overflow) => r == Some(Command::Unknown),
                Some(FeedOutcome::Line(line)) => r matches Some(c) && line_command(line, command_model(c)),
            },
    {
        let mut i: usize = 0;
        assert(bytes@.skip(0) =~= bytes@);
        while i < bytes.len()
            invariant
                self.wf(),
                i <= bytes@.len(),
                fed(self@, bytes@.skip(i as int), N as nat) == fed(old(self)@, bytes@, N as nat),
            decreases bytes@.len() - i,
        {
            let byte = bytes[i];
            assert(bytes@.skip(i as int)[0] == byte);
            assert(bytes@.skip(i as int).drop_first() =~= bytes@.skip(i + 1));
            if byte == 10 {
                let n = self.len;
                self.len = 0;
                assert(self@ =~= Seq::<u8>::empty());
                let line = vstd::slice::slice_subrange(self.buf.as_slice(), 0, n);
                let command = match utf8_str(line) {
                    Some(text) => {
                        let c = parse_command(text);
                        assert(encode_utf8(text@) == line@);
                        c
                    },
                    None => Command::Unknown,
                };
                return Some(command);
            }
            if self.len == N {
                self.len = 0;
                assert(self@ =~= Seq::<u8>::empty());
                return Some(Command::Unknown);
            }
            let ghost before = self@;
            self.buf.set(self.len, byte);
            self.len = self.len + 1;
            assert(self@ =~= before.push(byte));
            i = i + 1;
        }
        assert(bytes@.skip(i as int) =~= Seq::<u8>::empty());
        None
    }
}

impl<const N: usize> Default for SerialState<N> {
    fn default() -> (r: Self)
        ensures
            r.wf(),
            r@ == Seq::<u8>::empty(),
    {
        Self::new()
    }
}

} // verus!
