//! Decimal formatting and the interpretation of what the player types.
use vstd::prelude::*;

verus! {

/// The character of a decimal digit.
pub open spec fn digit_char(d: nat) -> char {
    if d == 0 {
        '0'
    } else if d == 1 {
        '1'
    } else if d == 2 {
        '2'
    } else if d == 3 {
        '3'
    } else if d == 4 {
        '4'
    } else if d == 5 {
        '5'
    } else if d == 6 {
        '6'
    } else if d == 7 {
        '7'
    } else if d == 8 {
        '8'
    } else {
        '9'
    }
}

/// The decimal notation of a natural number, without leading zeros.
pub open spec fn decimal(n: nat) -> Seq<char>
    decreases n,
{
    if n < 10 {
        seq![digit_char(n)]
    } else {
        decimal(n / 10).push(digit_char(n % 10))
    }
}

/// The decimal notation of an integer: a leading '-' for negatives.
pub open spec fn signed_decimal(n: int) -> Seq<char> {
    if n >= 0 {
        decimal(n as nat)
    } else {
        seq!['-'] + decimal((-n) as nat)
    }
}

/// A signed coin amount as shown to the player: "+30", "+0" or "-60".
pub open spec fn winnings_text(n: int) -> Seq<char> {
    if n >= 0 {
        seq!['+'] + decimal(n as nat)
    } else {
        signed_decimal(n)
    }
}

fn digit_str(d: u64) -> (s: &'static str)
    requires
        d < 10,
    ensures
        s@ == seq![digit_char(d as nat)],
{
    proof {
        reveal_strlit("0");
        reveal_strlit("1");
        reveal_strlit("2");
        reveal_strlit("3");
        reveal_strlit("4");
        reveal_strlit("5");
        reveal_strlit("6");
        reveal_strlit("7");
        reveal_strlit("8");
        reveal_strlit("9");
    }
    if d == 0 {
        "0"
    } else if d == 1 {
        "1"
    } else if d == 2 {
        "2"
    } else if d == 3 {
        "3"
    } else if d == 4 {
        "4"
    } else if d == 5 {
        "5"
    } else if d == 6 {
        "6"
    } else if d == 7 {
        "7"
    } else if d == 8 {
        "8"
    } else {
        "9"
    }
}

/// The decimal notation of `n`.
pub fn u64_to_decimal(n: u64) -> (s: String)
    ensures
        s@ == decimal(n as nat),
    decreases n,
{
    if n < 10 {
        String::from_str(digit_str(n))
    } else {
        let mut s = u64_to_decimal(n / 10);
        s.append(digit_str(n % 10));
        s
    }
}

/// Formats a signed coin amount, e.g. `+30` or `-60`.
pub fn format_winnings(winnings: i64) -> (s: String)
    ensures
        s@ == winnings_text(winnings as int),
{
    if winnings >= 0 {
        proof {
            reveal_strlit("+");
        }
        let mut s = String::from_str("+");
        let digits = u64_to_decimal(winnings as u64);
        s.append(digits.as_str());
        s
    } else {
        proof {
            reveal_strlit("-");
        }
        let mut s = String::from_str("-");
        let magnitude: u64 = (0i128 - winnings as i128) as u64;
        let digits = u64_to_decimal(magnitude);
        s.append(digits.as_str());
        s
    }
}

} // verus!

verus! {

/// Whether `c` has the Unicode `White_Space` property (what `str::trim` strips).
pub open spec fn is_white_space(c: char) -> bool {
    ||| ('\u{9}' <= c && c <= '\u{d}')
    ||| c == ' '
    ||| c == '\u{85}'
    ||| c == '\u{a0}'
    ||| c == '\u{1680}'
    ||| ('\u{2000}' <= c && c <= '\u{200a}')
    ||| c == '\u{2028}'
    ||| c == '\u{2029}'
    ||| c == '\u{202f}'
    ||| c == '\u{205f}'
    ||| c == '\u{3000}'
}

/// The text with leading and trailing white space removed: the longest
/// infix whose first and last characters are not white space.
pub open spec fn trimmed(s: Seq<char>, start: int, end: int) -> bool {
    &&& 0 <= start <= end <= s.len()
    &&& forall|i: int| 0 <= i < start ==> is_white_space(#[trigger] s[i])
    &&& forall|i: int| end <= i < s.len() ==> is_white_space(#[trigger] s[i])
    &&& start < end ==> !is_white_space(s[start]) && !is_white_space(s[end - 1])
    &&& start == end ==> end == s.len()
}

/// Whether typed character `c` stands for the lower-case letter `w`: it is
/// `w` itself, or the ASCII capital of `w`.
pub open spec fn same_letter(c: char, w: char) -> bool {
    c == w || ('A' <= c && c <= 'Z' && (c as u32) + 32 == (w as u32))
}

/// Whether `s` equals the lower-case ASCII word `word` when ASCII letters
/// are compared without regard to case.
pub open spec fn matches_word(s: Seq<char>, word: Seq<char>) -> bool {
    s.len() == word.len() && forall|i: int| 0 <= i < s.len() ==> same_letter(#[trigger] s[i], word[i])
}

/// Whether a character is an ASCII decimal digit.
pub open spec fn is_digit(c: char) -> bool {
    '0' <= c && c <= '9'
}

/// The number written by a sequence of decimal digits.
pub open spec fn digits_value(s: Seq<char>) -> nat
    decreases s.len(),
{
    if s.len() == 0 {
        0
    } else {
        digits_value(s.drop_last()) * 10 + ((s.last() as u32) - ('0' as u32)) as nat
    }
}

/// The text after an optional leading `+`.
pub open spec fn unsigned_part(s: Seq<char>) -> Seq<char> {
    if s.len() > 0 && s[0] == '+' {
        s.drop_first()
    } else {
        s
    }
}

/// Every character is a decimal digit.
pub open spec fn all_digits(s: Seq<char>) -> bool {
    forall|i: int| 0 <= i < s.len() ==> is_digit(#[trigger] s[i])
}

/// What `str::parse::<u32>` yields: an optional `+` followed by at least one
/// decimal digit, whose value fits `u32`.
pub open spec fn parse_u32_spec(s: Seq<char>) -> Option<u32> {
    let digits = unsigned_part(s);
    if digits.len() == 0 || !all_digits(digits) {
        None
    } else if digits_value(digits) <= u32::MAX {
        Some(digits_value(digits) as u32)
    } else {
        None
    }
}

/// How a line typed at the bet prompt is read.
#[derive(Debug, Clone, Copy, PartialEq, Eq, Structural)]
pub enum BetReply {
    /// `q` or `quit`: leave the session.
    Quit,
    /// Not one of the bet options.
    Invalid,
    /// A bet option the player cannot pay.
    Unaffordable,
    /// An affordable bet option.
    Bet(u32),
}

/// How a line typed at the insurance prompt is read.
#[derive(Debug, Clone, Copy, PartialEq, Eq, Structural)]
pub enum InsuranceReply {
    /// `y` or `yes`.
    Buy,
    /// `n` or `no`.
    Decline,
    /// `q` or `quit`.
    Quit,
    /// Anything else.
    Invalid,
}

/// How a line typed at the action prompt is read.
#[derive(Debug, Clone, Copy, PartialEq, Eq, Structural)]
pub enum ActionReply {
    /// `h` or `hit`.
    Hit,
    /// `s` or `stand`.
    Stand,
    /// `r` or `surrender` on the first decision.
    Surrender,
    /// `r` or `surrender` after the first decision: not allowed.
    SurrenderRefused,
    /// `q` or `quit`.
    Quit,
    /// Anything else.
    Invalid,
}

/// The trimmed text of `s` for the given bounds.
pub open spec fn trim_of(s: Seq<char>) -> Seq<char> {
    let bounds = choose|b: (int, int)| trimmed(s, b.0, b.1);
    s.subrange(bounds.0, bounds.1)
}

/// The bet prompt's reading of a line: quit words, then a bet option, then
/// whether the player can pay it.
pub open spec fn bet_reply_spec(line: Seq<char>, coins: u32) -> BetReply {
    let t = trim_of(line);
    if matches_word(t, seq!['q']) || matches_word(t, seq!['q', 'u', 'i', 't']) {
        BetReply::Quit
    } else {
        match parse_u32_spec(t) {
            Some(amount) => if amount == 10 || amount == 50 || amount == 100 {
                if amount > coins {
                    BetReply::Unaffordable
                } else {
                    BetReply::Bet(amount)
                }
            } else {
                BetReply::Invalid
            },
            None => BetReply::Invalid,
        }
    }
}

/// The insurance prompt's reading of a line.
pub open spec fn insurance_reply_spec(line: Seq<char>) -> InsuranceReply {
    let t = trim_of(line);
    if matches_word(t, seq!['y']) || matches_word(t, seq!['y', 'e', 's']) {
        InsuranceReply::Buy
    } else if matches_word(t, seq!['n']) || matches_word(t, seq!['n', 'o']) {
        InsuranceReply::Decline
    } else if matches_word(t, seq!['q']) || matches_word(t, seq!['q', 'u', 'i', 't']) {
        InsuranceReply::Quit
    } else {
        InsuranceReply::Invalid
    }
}

/// The action prompt's reading of a line; surrender only on the first decision.
pub open spec fn action_reply_spec(line: Seq<char>, first_decision: bool) -> ActionReply {
    let t = trim_of(line);
    if matches_word(t, seq!['h']) || matches_word(t, seq!['h', 'i', 't']) {
        ActionReply::Hit
    } else if matches_word(t, seq!['s']) || matches_word(t, seq!['s', 't', 'a', 'n', 'd']) {
        ActionReply::Stand
    } else if matches_word(t, seq!['r']) || matches_word(
        t,
        seq!['s', 'u', 'r', 'r', 'e', 'n', 'd', 'e', 'r'],
    ) {
        if first_decision {
            ActionReply::Surrender
        } else {
            ActionReply::SurrenderRefused
        }
    } else if matches_word(t, seq!['q']) || matches_word(t, seq!['q', 'u', 'i', 't']) {
        ActionReply::Quit
    } else {
        ActionReply::Invalid
    }
}

fn white_space(c: char) -> (b: bool)
    ensures
        b == is_white_space(c),
{
    ('\u{9}' <= c && c <= '\u{d}') || c == ' ' || c == '\u{85}' || c == '\u{a0}' || c
        == '\u{1680}' || ('\u{2000}' <= c && c <= '\u{200a}') || c == '\u{2028}' || c
        == '\u{2029}' || c == '\u{202f}' || c == '\u{205f}' || c == '\u{3000}'
}

/// The characters of a line with surrounding white space removed.
fn trim_chars(line: &str) -> (t: Vec<char>)
    ensures
        t@ == trim_of(line@),
{
    let n = line.unicode_len();
    let mut start: usize = 0;
    while start < n && white_space(line.get_char(start))
        invariant
            n == line@.len(),
            start <= n,
            forall|i: int| 0 <= i < start ==> is_white_space(#[trigger] line@[i]),
        decreases n - start,
    {
        start = start + 1;
    }
    let mut end: usize = n;
    while end > start && white_space(line.get_char(end - 1))
        invariant
            n == line@.len(),
            start <= end <= n,
            forall|i: int| end <= i < n ==> is_white_space(#[trigger] line@[i]),
            start < n ==> !is_white_space(line@[start as int]),
        decreases end - start,
    {
        end = end - 1;
    }
    proof {
        if start == end && start < n {
            assert(!is_white_space(line@[start as int]));
            assert(is_white_space(line@[end as int]));
        }
        assert(trimmed(line@, start as int, end as int));
        lemma_trim_unique(line@, start as int, end as int);
    }
    let mut t: Vec<char> = Vec::new();
    let mut i: usize = start;
    while i < end
        invariant
            n == line@.len(),
            start <= i <= end <= n,
            t@ == line@.subrange(start as int, i as int),
        decreases end - i,
    {
        t.push(line.get_char(i));
        i = i + 1;
    }
    t
}

/// The trimming bounds are unique, so the chosen ones are the computed ones.
proof fn lemma_trim_unique(s: Seq<char>, start: int, end: int)
    requires
        trimmed(s, start, end),
    ensures
        trim_of(s) == s.subrange(start, end),
{
    let w = (start, end);
    assert(trimmed(s, w.0, w.1));
    let b = choose|b: (int, int)| trimmed(s, b.0, b.1);
    assert(trimmed(s, b.0, b.1));
    if b.0 < start {
        assert(is_white_space(s[b.0]));
    }
    if start < b.0 {
        assert(is_white_space(s[start]));
    }
    if b.1 < end {
        assert(is_white_space(s[end - 1]));
    }
    if end < b.1 {
        assert(is_white_space(s[b.1 - 1]));
    }
}

fn letter_matches(c: char, w: char) -> (b: bool)
    ensures
        b == same_letter(c, w),
{
    c == w || ('A' <= c && c <= 'Z' && (c as u32) + 32 == (w as u32))
}

/// Whether the characters spell `word` up to ASCII case.
fn is_word(t: &Vec<char>, word: &str) -> (b: bool)
    ensures
        b == matches_word(t@, word@),
{
    let n = word.unicode_len();
    if t.len() != n {
        return false;
    }
    let mut i: usize = 0;
    while i < n
        invariant
            n == word@.len(),
            t@.len() == n,
            i <= n,
            forall|j: int| 0 <= j < i ==> same_letter(#[trigger] t@[j], word@[j]),
        decreases n - i,
    {
        if !letter_matches(t[i], word.get_char(i)) {
            return false;
        }
        i = i + 1;
    }
    true
}

/// Reads a sequence of characters as `str::parse::<u32>` does.
fn parse_u32(t: &Vec<char>) -> (r: Option<u32>)
    ensures
        r == parse_u32_spec(t@),
{
    let mut start: usize = 0;
    if t.len() > 0 && t[0] == '+' {
        start = 1;
    }
    let ghost digits = unsigned_part(t@);
    proof {
        assert(digits =~= t@.subrange(start as int, t@.len() as int));
    }
    if start == t.len() {
        return None;
    }
    let mut i: usize = start;
    while i < t.len()
        invariant
            start <= i <= t@.len(),
            digits == t@.subrange(start as int, t@.len() as int),
            digits == unsigned_part(t@),
            forall|j: int| start <= j < i ==> is_digit(#[trigger] t@[j]),
        decreases t@.len() - i,
    {
        let c = t[i];
        if !('0' <= c && c <= '9') {
            proof {
                let k = i - start;
                assert(0 <= k < digits.len() && !is_digit(digits[k]));
                assert(!all_digits(digits));
                assert(digits == unsigned_part(t@));
                assert(!all_digits(unsigned_part(t@)));
                assert(parse_u32_spec(t@) is None);
            }
            return None;
        }
        i = i + 1;
    }
    proof {
        assert forall|j: int| 0 <= j < digits.len() implies is_digit(#[trigger] digits[j]) by {
            assert(digits[j] == t@[j + start]);
        }
    }
    let mut value: u64 = 0;
    i = start;
    while i < t.len()
        invariant
            start <= i <= t@.len(),
            digits == t@.subrange(start as int, t@.len() as int),
            digits == unsigned_part(t@),
            forall|j: int| 0 <= j < digits.len() ==> is_digit(#[trigger] digits[j]),
            value == digits_value(digits.take(i - start)),
            value <= u32::MAX,
        decreases t@.len() - i,
    {
        let c = t[i];
        proof {
            assert(c == digits[i - start]);
            assert(is_digit(digits[i - start]));
            lemma_digits_grow(digits, (i - start) as int);
        }
        let d: u64 = (c as u32 - '0' as u32) as u64;
        if value > (u32::MAX as u64 - d) / 10 {
            proof {
                assert(value * 10 + d > u32::MAX);
                assert(digits_value(digits) > u32::MAX);
                assert(parse_u32_spec(t@) is None);
            }
            return None;
        }
        value = value * 10 + d;
        i = i + 1;
    }
    proof {
        assert(digits.take(i - start) =~= digits);
    }
    Some(value as u32)
}

/// A longer run of digits never has a smaller value than its prefix times ten.
proof fn lemma_digits_grow(s: Seq<char>, k: int)
    requires
        0 <= k < s.len(),
        forall|j: int| 0 <= j < s.len() ==> is_digit(#[trigger] s[j]),
    ensures
        digits_value(s) >= digits_value(s.take(k + 1)),
        digits_value(s.take(k + 1)) == digits_value(s.take(k)) * 10 + ((s[k] as u32) - ('0' as u32)),
    decreases s.len() - k,
{
    assert(s.take(k + 1).drop_last() =~= s.take(k));
    if k + 1 < s.len() {
        lemma_digits_grow(s, k + 1);
    } else {
        assert(s.take(k + 1) =~= s);
    }
}

/// Reads a line typed at the bet prompt (`q`/`quit`, or 10, 50, or 100).
pub fn read_bet_reply(line: &str, coins: u32) -> (r: BetReply)
    ensures
        r == bet_reply_spec(line@, coins),
{
    let t = trim_chars(line);
    proof {
        reveal_strlit("q");
        reveal_strlit("quit");
    }
    if is_word(&t, "q") || is_word(&t, "quit") {
        return BetReply::Quit;
    }
    match parse_u32(&t) {
        Some(amount) => if amount == 10 || amount == 50 || amount == 100 {
            if amount > coins {
                BetReply::Unaffordable
            } else {
                BetReply::Bet(amount)
            }
        } else {
            BetReply::Invalid
        },
        None => BetReply::Invalid,
    }
}

/// Reads a line typed at the insurance prompt (`y`/`yes`, `n`/`no`, `q`/`quit`).
pub fn read_insurance_reply(line: &str) -> (r: InsuranceReply)
    ensures
        r == insurance_reply_spec(line@),
{
    let t = trim_chars(line);
    proof {
        reveal_strlit("y");
        reveal_strlit("yes");
        reveal_strlit("n");
        reveal_strlit("no");
        reveal_strlit("q");
        reveal_strlit("quit");
    }
    if is_word(&t, "y") || is_word(&t, "yes") {
        InsuranceReply::Buy
    } else if is_word(&t, "n") || is_word(&t, "no") {
        InsuranceReply::Decline
    } else if is_word(&t, "q") || is_word(&t, "quit") {
        InsuranceReply::Quit
    } else {
        InsuranceReply::Invalid
    }
}

/// Reads a line typed at the action prompt (`h`/`hit`, `s`/`stand`,
/// `r`/`surrender` on the first decision only, `q`/`quit`).
pub fn read_action_reply(line: &str, first_decision: bool) -> (r: ActionReply)
    ensures
        r == action_reply_spec(line@, first_decision),
{
    let t = trim_chars(line);
    proof {
        reveal_strlit("h");
        reveal_strlit("hit");
        reveal_strlit("s");
        reveal_strlit("stand");
        reveal_strlit("r");
        reveal_strlit("surrender");
        reveal_strlit("q");
        reveal_strlit("quit");
    }
    if is_word(&t, "h") || is_word(&t, "hit") {
        ActionReply::Hit
    } else if is_word(&t, "s") || is_word(&t, "stand") {
        ActionReply::Stand
    } else if is_word(&t, "r") || is_word(&t, "surrender") {
        if first_decision {
            ActionReply::Surrender
        } else {
            ActionReply::SurrenderRefused
        }
    } else if is_word(&t, "q") || is_word(&t, "quit") {
        ActionReply::Quit
    } else {
        ActionReply::Invalid
    }
}

/// The accepted bet options joined by '/': "10/50/100".
pub open spec fn options_text_spec() -> Seq<char> {
    decimal(10) + seq!['/'] + decimal(50) + seq!['/'] + decimal(100)
}

/// Formats the accepted bet options, e.g. `10/50/100`.
pub fn options_text() -> (s: String)
    ensures
        s@ == options_text_spec(),
{
    let options = crate::players::player::BET_OPTIONS;
    let mut s = u64_to_decimal(options[0] as u64);
    let mut i: usize = 1;
    while i < 3
        invariant
            1 <= i <= 3,
            options@ == seq![10u32, 50u32, 100u32],
            i == 1 ==> s@ == decimal(10),
            i == 2 ==> s@ == decimal(10) + seq!['/'] + decimal(50),
            i == 3 ==> s@ == options_text_spec(),
        decreases 3 - i,
    {
        proof {
            reveal_strlit("/");
        }
        s.append("/");
        let d = u64_to_decimal(options[i] as u64);
        s.append(d.as_str());
        i = i + 1;
    }
    s
}

} // verus!

verus! {

/// Surrender is only ever read on the first decision of a hand.
pub proof fn law_surrender_only_first(line: Seq<char>)
    ensures
        action_reply_spec(line, false) != ActionReply::Surrender,
{
}

/// The bet prompt only accepts 10, 50, or 100, and never more than the player holds.
pub proof fn law_bets_are_affordable_options(line: Seq<char>, coins: u32)
    ensures
        bet_reply_spec(line, coins) matches BetReply::Bet(b) ==> (b == 10 || b == 50 || b == 100)
            && b <= coins,
{
}

} // verus!
