//! The lexical scanners: each reports how far a token of one class reaches,
//! and none of them consumes.

use crate::element_list::{ControlOperator, RedirectOp};
use crate::feeder::Feeder;
use vstd::prelude::*;
use vstd::std_specs::iter::IteratorSpec;
use vstd::string::*;

verus! {

/// `text` begins with the one character `a`.
pub proof fn lemma_prefix_of_one(text: Seq<char>, a: char)
    ensures
        seq![a].is_prefix_of(text) <==> text.len() >= 1 && text[0] == a,
{
    if text.len() >= 1 && text[0] == a {
    }
    if seq![a].is_prefix_of(text) {
        assert(text.subrange(0, 1)[0] == a);
    }
}

/// `text` begins with the two characters `a`, `b`.
pub proof fn lemma_prefix_of_two(text: Seq<char>, a: char, b: char)
    ensures
        seq![a, b].is_prefix_of(text) <==> text.len() >= 2 && text[0] == a && text[1] == b,
{
    if text.len() >= 2 && text[0] == a && text[1] == b {
    }
    if seq![a, b].is_prefix_of(text) {
    }
}

/// `text` begins with the three characters `a`, `b`, `c`.
pub proof fn lemma_prefix_of_three(text: Seq<char>, a: char, b: char, c: char)
    ensures
        seq![a, b, c].is_prefix_of(text) <==> text.len() >= 3 && text[0] == a && text[1] == b
            && text[2] == c,
{
    if text.len() >= 3 && text[0] == a && text[1] == b && text[2] == c {
    }
    if seq![a, b, c].is_prefix_of(text) {
    }
}

/// The control operator at the front of `text`: the three-character
/// spelling is tried first, then those of two characters, then those of one.
/// A lone `&` directly before `>` is none: it opens a redirection.
pub open spec fn control_operator(text: Seq<char>) -> Option<ControlOperator> {
    if ControlOperator::SemiSemiAnd.spelling().is_prefix_of(text) {
        Some(ControlOperator::SemiSemiAnd)
    } else if ControlOperator::Or.spelling().is_prefix_of(text) {
        Some(ControlOperator::Or)
    } else if ControlOperator::And.spelling().is_prefix_of(text) {
        Some(ControlOperator::And)
    } else if ControlOperator::DoubleSemicolon.spelling().is_prefix_of(text) {
        Some(ControlOperator::DoubleSemicolon)
    } else if ControlOperator::SemiAnd.spelling().is_prefix_of(text) {
        Some(ControlOperator::SemiAnd)
    } else if ControlOperator::PipeAnd.spelling().is_prefix_of(text) {
        Some(ControlOperator::PipeAnd)
    } else if ControlOperator::BgAnd.spelling().is_prefix_of(text) {
        if text.len() > 1 && text[1] == '>' {
            None
        } else {
            Some(ControlOperator::BgAnd)
        }
    } else if ControlOperator::NewLine.spelling().is_prefix_of(text) {
        Some(ControlOperator::NewLine)
    } else if ControlOperator::Pipe.spelling().is_prefix_of(text) {
        Some(ControlOperator::Pipe)
    } else if ControlOperator::Semicolon.spelling().is_prefix_of(text) {
        Some(ControlOperator::Semicolon)
    } else if ControlOperator::LeftParen.spelling().is_prefix_of(text) {
        Some(ControlOperator::LeftParen)
    } else if ControlOperator::RightParen.spelling().is_prefix_of(text) {
        Some(ControlOperator::RightParen)
    } else {
        None
    }
}

/// The length of the control-operator token at the front of `text`: the
/// operator's spelling and, where a newline follows it directly, that
/// newline too; 0 where there is no operator.
pub open spec fn control_operator_len(text: Seq<char>) -> nat {
    match control_operator(text) {
        Some(op) => {
            let n = op.spelling().len();
            if n < text.len() && text[n as int] == '\n' {
                n + 1
            } else {
                n
            }
        },
        None => 0,
    }
}

/// The literals that the control-operator scanner tests are the spellings
/// of the operators.
proof fn lemma_control_spellings()
    ensures
        ";;&"@ == ControlOperator::SemiSemiAnd.spelling(),
        "||"@ == ControlOperator::Or.spelling(),
        "&&"@ == ControlOperator::And.spelling(),
        ";;"@ == ControlOperator::DoubleSemicolon.spelling(),
        ";&"@ == ControlOperator::SemiAnd.spelling(),
        "|&"@ == ControlOperator::PipeAnd.spelling(),
        "&"@ == ControlOperator::BgAnd.spelling(),
        "\n"@ == ControlOperator::NewLine.spelling(),
        "|"@ == ControlOperator::Pipe.spelling(),
        ";"@ == ControlOperator::Semicolon.spelling(),
        "("@ == ControlOperator::LeftParen.spelling(),
        ")"@ == ControlOperator::RightParen.spelling(),
        "&>"@ == seq!['&', '>'],
{
    reveal_strlit(";;&");
    reveal_strlit("||");
    reveal_strlit("&&");
    reveal_strlit(";;");
    reveal_strlit(";&");
    reveal_strlit("|&");
    reveal_strlit("&");
    reveal_strlit("\n");
    reveal_strlit("|");
    reveal_strlit(";");
    reveal_strlit("(");
    reveal_strlit(")");
    reveal_strlit("&>");
}

impl Feeder {
    /// Classifies the control operator at the front of the buffer and
    /// reports the length of its token.
    pub fn scanner_control_op(&mut self) -> (found: (usize, Option<ControlOperator>))
        ensures
            *final(self) == *old(self),
            found.1 == control_operator(old(self)@),
            found.0 == control_operator_len(old(self)@),
    {
        proof {
            lemma_control_spellings();
        }
        let op = if self.starts_with(";;&") {
            Some(ControlOperator::SemiSemiAnd)
        } else if self.starts_with("||") {
            Some(ControlOperator::Or)
        } else if self.starts_with("&&") {
            Some(ControlOperator::And)
        } else if self.starts_with(";;") {
            Some(ControlOperator::DoubleSemicolon)
        } else if self.starts_with(";&") {
            Some(ControlOperator::SemiAnd)
        } else if self.starts_with("|&") {
            Some(ControlOperator::PipeAnd)
        } else if self.starts_with("&") {
            if self.starts_with("&>") {
                None
            } else {
                Some(ControlOperator::BgAnd)
            }
        } else if self.starts_with("\n") {
            Some(ControlOperator::NewLine)
        } else if self.starts_with("|") {
            Some(ControlOperator::Pipe)
        } else if self.starts_with(";") {
            Some(ControlOperator::Semicolon)
        } else if self.starts_with("(") {
            Some(ControlOperator::LeftParen)
        } else if self.starts_with(")") {
            Some(ControlOperator::RightParen)
        } else {
            None
        };
        match op {
            Some(op) => {
                let n = op.len();
                let mut rest = self.chars_after(n);
                match rest.next() {
                    Some('\n') => (n + 1, Some(op)),
                    _ => (n, Some(op)),
                }
            },
            None => (0, None),
        }
    }
}

/// The redirection operator at the front of `text`; spellings that begin
/// with another spelling are tried before it.
pub open spec fn redirect_operator(text: Seq<char>) -> Option<RedirectOp> {
    if RedirectOp::HereStr.spelling().is_prefix_of(text) {
        Some(RedirectOp::HereStr)
    } else if RedirectOp::AndAppend.spelling().is_prefix_of(text) {
        Some(RedirectOp::AndAppend)
    } else if RedirectOp::Append.spelling().is_prefix_of(text) {
        Some(RedirectOp::Append)
    } else if RedirectOp::HereDoc.spelling().is_prefix_of(text) {
        Some(RedirectOp::HereDoc)
    } else if RedirectOp::OutputAnd.spelling().is_prefix_of(text) {
        Some(RedirectOp::OutputAnd)
    } else if RedirectOp::AndOutput.spelling().is_prefix_of(text) {
        Some(RedirectOp::AndOutput)
    } else if RedirectOp::InOut.spelling().is_prefix_of(text) {
        Some(RedirectOp::InOut)
    } else if RedirectOp::Output.spelling().is_prefix_of(text) {
        Some(RedirectOp::Output)
    } else if RedirectOp::Input.spelling().is_prefix_of(text) {
        Some(RedirectOp::Input)
    } else {
        None
    }
}

/// The length of the redirection operator at the front of `text`, 0 where
/// there is none.
pub open spec fn redirect_operator_len(text: Seq<char>) -> nat {
    match redirect_operator(text) {
        Some(op) => op.spelling().len(),
        None => 0,
    }
}

/// The literals that the redirection scanner tests are the spellings of the
/// operators.
proof fn lemma_redirect_spellings()
    ensures
        "<<<"@ == RedirectOp::HereStr.spelling(),
        "&>>"@ == RedirectOp::AndAppend.spelling(),
        ">>"@ == RedirectOp::Append.spelling(),
        "<<"@ == RedirectOp::HereDoc.spelling(),
        ">&"@ == RedirectOp::OutputAnd.spelling(),
        "&>"@ == RedirectOp::AndOutput.spelling(),
        "<>"@ == RedirectOp::InOut.spelling(),
        ">"@ == RedirectOp::Output.spelling(),
        "<"@ == RedirectOp::Input.spelling(),
{
    reveal_strlit("<<<");
    reveal_strlit("&>>");
    reveal_strlit(">>");
    reveal_strlit("<<");
    reveal_strlit(">&");
    reveal_strlit("&>");
    reveal_strlit("<>");
    reveal_strlit(">");
    reveal_strlit("<");
}

impl Feeder {
    /// Classifies the redirection operator at the front of the buffer and
    /// reports its length.
    pub fn scanner_redirect(&mut self) -> (found: (usize, Option<RedirectOp>))
        ensures
            *final(self) == *old(self),
            found.1 == redirect_operator(old(self)@),
            found.0 == redirect_operator_len(old(self)@),
    {
        proof {
            lemma_redirect_spellings();
        }
        if self.starts_with("<<<") {
            return (3, Some(RedirectOp::HereStr));
        } else if self.starts_with("&>>") {
            return (3, Some(RedirectOp::AndAppend));
        } else if self.starts_with(">>") {
            return (2, Some(RedirectOp::Append));
        } else if self.starts_with("<<") {
            return (2, Some(RedirectOp::HereDoc));
        } else if self.starts_with(">&") {
            return (2, Some(RedirectOp::OutputAnd));
        } else if self.starts_with("&>") {
            return (2, Some(RedirectOp::AndOutput));
        } else if self.starts_with("<>") {
            return (2, Some(RedirectOp::InOut));
        } else if self.starts_with(">") {
            return (1, Some(RedirectOp::Output));
        } else if self.starts_with("<") {
            return (1, Some(RedirectOp::Input));
        }
        (0, None)
    }
}

/// A class of characters that a run is made of.
pub enum CharClass {
    /// Space and tab.
    Blank,
    /// The ASCII digits.
    Digit,
    /// What may follow the first character of a name: ASCII letters, digits
    /// and `_`.
    NameChar,
    /// Every character but the given ones.
    Outside(Seq<char>),
}

impl CharClass {
    /// Whether `ch` belongs to the class.
    pub open spec fn has(self, ch: char) -> bool {
        match self {
            CharClass::Blank => ch == ' ' || ch == '\t',
            CharClass::Digit => '0' <= ch <= '9',
            CharClass::NameChar => is_name_start(ch) || '0' <= ch <= '9',
            CharClass::Outside(delimiters) => !delimiters.contains(ch),
        }
    }
}

/// Whether a name may begin with `ch`: an ASCII letter or `_`.
pub open spec fn is_name_start(ch: char) -> bool {
    ('A' <= ch <= 'Z') || ('a' <= ch <= 'z') || ch == '_'
}

/// Whether `ch` alone names a special parameter.
pub open spec fn is_special_parameter(ch: char) -> bool {
    ch == '?' || ch == '*' || ch == '@' || ch == '$' || ch == '#' || ch == '!' || ch == '-' || ch
        == ':'
}

/// The offset at which the longest run of `class` that starts at `from`
/// ends: the first offset at or after `from` whose character is not in
/// `class`, or the end of `text`. It is `from` where no run starts there.
pub open spec fn span_end(text: Seq<char>, from: int, class: CharClass) -> int
    decreases text.len() - from,
{
    if 0 <= from < text.len() && class.has(text[from]) {
        span_end(text, from + 1, class)
    } else {
        from
    }
}

/// A run reaches as far as its class does and no further: it stays inside
/// the text, holds only characters of the class, and the character after
/// it, if there is one, is not of the class.
pub proof fn lemma_span_end_is_maximal(text: Seq<char>, from: int, class: CharClass)
    requires
        0 <= from,
    ensures
        from <= span_end(text, from, class),
        from <= text.len() ==> span_end(text, from, class) <= text.len(),
        forall|i: int| from <= i < span_end(text, from, class) ==> class.has(#[trigger] text[i]),
        span_end(text, from, class) < text.len() ==> !class.has(
            text[span_end(text, from, class)],
        ),
    decreases text.len() - from,
{
    if from < text.len() && class.has(text[from]) {
        lemma_span_end_is_maximal(text, from + 1, class);
    }
}

/// Whether the character at offset `at` is escaped when `text` is read from
/// offset `from`: the character before it is a backslash that is not
/// escaped itself.
pub open spec fn escaped_at(text: Seq<char>, from: int, at: int) -> bool
    decreases at - from,
{
    if from < at <= text.len() {
        text[at - 1] == '\\' && !escaped_at(text, from, at - 1)
    } else {
        false
    }
}

/// Whether a scan that started at `from` stops at offset `at`: the
/// character there is one of `delimiters`, is not escaped and is no
/// backslash.
pub open spec fn stops_at(text: Seq<char>, from: int, at: int, delimiters: Seq<char>) -> bool {
    !escaped_at(text, from, at) && text[at] != '\\' && delimiters.contains(text[at])
}

/// The first offset at or after `at` where a scan that started at `from`
/// stops, or the end of `text` where it stops nowhere.
pub open spec fn escaped_span_end(
    text: Seq<char>,
    from: int,
    at: int,
    delimiters: Seq<char>,
) -> int
    decreases text.len() - at,
{
    if 0 <= at < text.len() && !stops_at(text, from, at, delimiters) {
        escaped_span_end(text, from, at + 1, delimiters)
    } else {
        at
    }
}

/// An escaped delimiter does not end the scan: the scan ends at the first
/// delimiter that is neither escaped nor a backslash, and at the end of the
/// text where there is none.
pub proof fn lemma_escaped_span_end(text: Seq<char>, from: int, at: int, delimiters: Seq<char>)
    requires
        0 <= at,
    ensures
        at <= escaped_span_end(text, from, at, delimiters),
        at <= text.len() ==> escaped_span_end(text, from, at, delimiters) <= text.len(),
        forall|i: int|
            at <= i < escaped_span_end(text, from, at, delimiters) ==> !#[trigger] stops_at(
                text,
                from,
                i,
                delimiters,
            ),
        escaped_span_end(text, from, at, delimiters) < text.len() ==> stops_at(
            text,
            from,
            escaped_span_end(text, from, at, delimiters),
            delimiters,
        ),
    decreases text.len() - at,
{
    if at < text.len() && !stops_at(text, from, at, delimiters) {
        lemma_escaped_span_end(text, from, at + 1, delimiters);
    }
}

/// Whether `ch` occurs in `set`.
fn has_char(set: &str, ch: char) -> (found: bool)
    ensures
        found == set@.contains(ch),
{
    let mut chars = set.chars();
    let ghost mut seen: int = 0;
    loop
        invariant
            0 <= seen <= set@.len(),
            chars.remaining() == set@.skip(seen),
            forall|i: int| 0 <= i < seen ==> set@[i] != ch,
        decreases set@.len() - seen,
    {
        match chars.next() {
            Some(c) => {
                if c == ch {
                    return true;
                }
            },
            None => {
                return false;
            },
        }
        proof {
            seen = seen + 1;
        }
    }
}

/// Scans from offset `from` up to the first character of `to` that is not
/// escaped. A backslash escapes the character after it and never ends the
/// scan. Returns the offset reached: the end of the text where nothing ends
/// the scan, and `from` itself where `from` lies beyond the end.
pub fn scanner_until_escape(text: &Feeder, from: usize, to: &str) -> (pos: usize)
    ensures
        pos == escaped_span_end(text@, from as int, from as int, to@),
{
    let len = text.len();
    if from >= len {
        return from;
    }
    let mut pos = from;
    let mut escaped = false;
    let mut chars = text.chars_after(from);
    loop
        invariant_except_break
            from <= pos <= len,
            chars.remaining() == text@.skip(pos as int),
            escaped == escaped_at(text@, from as int, pos as int),
            escaped_span_end(text@, from as int, from as int, to@) == escaped_span_end(
                text@,
                from as int,
                pos as int,
                to@,
            ),
        invariant
            len == text@.len(),
        ensures
            pos == escaped_span_end(text@, from as int, from as int, to@),
        decreases len - pos,
    {
        match chars.next() {
            Some(ch) => {
                if escaped || ch == '\\' {
                    escaped = !escaped;
                } else if has_char(to, ch) {
                    break;
                }
                pos += 1;
            },
            None => {
                break;
            },
        }
    }
    pos
}

/// Scans the run of spaces and tabs that starts at offset `from` and
/// returns the offset at which it ends, `from` where there is none.
pub fn scanner_blank(text: &Feeder, from: usize) -> (pos: usize)
    ensures
        pos == span_end(text@, from as int, CharClass::Blank),
{
    let len = text.len();
    if from >= len {
        return from;
    }
    let mut pos = from;
    let mut chars = text.chars_after(from);
    loop
        invariant_except_break
            from <= pos <= len,
            chars.remaining() == text@.skip(pos as int),
            span_end(text@, from as int, CharClass::Blank) == span_end(
                text@,
                pos as int,
                CharClass::Blank,
            ),
        invariant
            len == text@.len(),
        ensures
            pos == span_end(text@, from as int, CharClass::Blank),
        decreases len - pos,
    {
        match chars.next() {
            Some(ch) => {
                if ch == ' ' || ch == '\t' {
                    pos += 1;
                } else {
                    break;
                }
            },
            None => {
                break;
            },
        }
    }
    pos
}

/// Scans from offset `from` up to the first character of `to` and returns
/// the offset reached: the end of the text where none occurs.
pub fn scanner_until(text: &Feeder, from: usize, to: &str) -> (pos: usize)
    ensures
        pos == span_end(text@, from as int, CharClass::Outside(to@)),
{
    let len = text.len();
    if from >= len {
        return from;
    }
    let mut pos = from;
    let mut chars = text.chars_after(from);
    loop
        invariant_except_break
            from <= pos <= len,
            chars.remaining() == text@.skip(pos as int),
            span_end(text@, from as int, CharClass::Outside(to@)) == span_end(
                text@,
                pos as int,
                CharClass::Outside(to@),
            ),
        invariant
            len == text@.len(),
        ensures
            pos == span_end(text@, from as int, CharClass::Outside(to@)),
        decreases len - pos,
    {
        match chars.next() {
            Some(ch) => {
                if has_char(to, ch) {
                    break;
                }
                pos += 1;
            },
            None => {
                break;
            },
        }
    }
    pos
}

/// Where the name that starts at offset `from` ends: a name begins with an
/// ASCII letter or `_` and goes on with letters, digits and `_`. It is
/// `from` where no name starts there.
pub open spec fn name_end(text: Seq<char>, from: int) -> int {
    if 0 <= from < text.len() && is_name_start(text[from]) {
        span_end(text, from + 1, CharClass::NameChar)
    } else {
        from
    }
}

/// Where the parameter that starts at offset `from` ends: one special
/// character, or else a run of digits. It is `from` where neither starts
/// there.
pub open spec fn parameter_end(text: Seq<char>, from: int) -> int {
    if 0 <= from < text.len() && is_special_parameter(text[from]) {
        from + 1
    } else {
        span_end(text, from, CharClass::Digit)
    }
}

/// Where the parameter that starts at offset `from` ends; where that is
/// offset 0, where the name that starts at `from` ends.
pub open spec fn name_or_parameter_end(text: Seq<char>, from: int) -> int {
    if parameter_end(text, from) == 0 {
        name_end(text, from)
    } else {
        parameter_end(text, from)
    }
}

/// The length of the comment at the front of `text`: from `#` up to, and
/// without, the next newline or the end. It is 0 where `text` does not
/// begin with `#`.
pub open spec fn comment_len(text: Seq<char>) -> int {
    if text.len() > 0 && text[0] == '#' {
        span_end(text, 0, CharClass::Outside(seq!['\n']))
    } else {
        0
    }
}

/// The length of the integer literal at the front of `text`: an optional
/// `-` and at least one digit. It is 0 where no digit stands there.
pub open spec fn integer_len(text: Seq<char>) -> int {
    let digits_from: int = if text.len() > 0 && text[0] == '-' {
        1
    } else {
        0
    };
    let end = span_end(text, digits_from, CharClass::Digit);
    if end == digits_from {
        0
    } else {
        end
    }
}

/// The length of the boolean connector at the front of `text`: 2 for `&&`
/// and for `||`, else 0.
pub open spec fn and_or_len(text: Seq<char>) -> int {
    if seq!['&', '&'].is_prefix_of(text) || seq!['|', '|'].is_prefix_of(text) {
        2
    } else {
        0
    }
}

impl Feeder {
    /// Scans a parameter from offset `from`; where that gives offset 0,
    /// scans a name instead.
    pub fn scanner_name_or_parameter(&mut self, from: usize) -> (pos: usize)
        ensures
            *final(self) == *old(self),
            pos == name_or_parameter_end(old(self)@, from as int),
    {
        let ans = self.scanner_parameter(from);
        if ans == 0 {
            self.scanner_name(from)
        } else {
            ans
        }
    }

    /// Scans the run of ASCII digits that starts at offset `from` and
    /// returns the offset at which it ends, `from` where there is none.
    pub fn scanner_number(&mut self, from: usize) -> (pos: usize)
        ensures
            *final(self) == *old(self),
            pos == span_end(old(self)@, from as int, CharClass::Digit),
    {
        let text: &Feeder = self;
        let len = text.len();
        if from >= len {
            return from;
        }
        let mut pos = from;
        let mut chars = text.chars_after(from);
        loop
            invariant_except_break
                from <= pos <= len,
                chars.remaining() == text@.skip(pos as int),
                span_end(text@, from as int, CharClass::Digit) == span_end(
                    text@,
                    pos as int,
                    CharClass::Digit,
                ),
            invariant
                len == text@.len(),
            ensures
                pos == span_end(text@, from as int, CharClass::Digit),
            decreases len - pos,
        {
            match chars.next() {
                Some(ch) => {
                    if ch < '0' || '9' < ch {
                        break;
                    }
                    pos += 1;
                },
                None => {
                    break;
                },
            }
        }
        pos
    }

    /// Scans a parameter from offset `from`: one of the special characters
    /// `?*@$#!-:`, or else a number. Returns the offset at which it ends,
    /// `from` where there is none.
    pub fn scanner_parameter(&mut self, from: usize) -> (pos: usize)
        ensures
            *final(self) == *old(self),
            pos == parameter_end(old(self)@, from as int),
    {
        if self.len() <= from {
            return from;
        }
        let ch = self.nth(from);
        if ch == '?' || ch == '*' || ch == '@' || ch == '$' || ch == '#' || ch == '!' || ch == '-'
            || ch == ':' {
            return from + 1;
        }
        self.scanner_number(from)
    }

    /// Scans a name from offset `from` and returns the offset at which it
    /// ends, `from` where no name starts there.
    pub fn scanner_name(&mut self, from: usize) -> (pos: usize)
        ensures
            *final(self) == *old(self),
            pos == name_end(old(self)@, from as int),
    {
        let text: &Feeder = self;
        let len = text.len();
        if len <= from {
            return from;
        }
        let h = text.nth(from);
        if !((h >= 'A' && h <= 'Z') || (h >= 'a' && h <= 'z') || h == '_') {
            return from;
        }
        if len == from + 1 {
            return from + 1;
        }
        let mut ans = from + 1;
        let mut chars = text.chars_after(from + 1);
        loop
            invariant_except_break
                from < ans <= len,
                chars.remaining() == text@.skip(ans as int),
                span_end(text@, from + 1, CharClass::NameChar) == span_end(
                    text@,
                    ans as int,
                    CharClass::NameChar,
                ),
            invariant
                len == text@.len(),
            ensures
                ans == span_end(text@, from + 1, CharClass::NameChar),
            decreases len - ans,
        {
            match chars.next() {
                Some(c) => {
                    if !((c >= '0' && c <= '9') || (c >= 'A' && c <= 'Z') || (c >= 'a' && c
                        <= 'z') || c == '_') {
                        break;
                    }
                    ans += 1;
                },
                None => {
                    break;
                },
            }
        }
        ans
    }

    /// The length of the comment at the front of the buffer.
    pub fn scanner_comment(&mut self) -> (len: usize)
        ensures
            *final(self) == *old(self),
            len == comment_len(old(self)@),
    {
        proof {
            reveal_strlit("#");
            reveal_strlit("\n");
            assert("\n"@ =~= seq!['\n']);
            lemma_prefix_of_one(self@, '#');
        }
        if self.starts_with("#") {
            return scanner_until(self, 0, "\n");
        }
        0
    }

    /// The length of the integer literal at the front of the buffer.
    pub fn scanner_integer(&mut self) -> (len: usize)
        ensures
            *final(self) == *old(self),
            len == integer_len(old(self)@),
    {
        proof {
            reveal_strlit("-");
            lemma_prefix_of_one(self@, '-');
        }
        if self.len() == 0 {
            return 0;
        }
        let mut pos: usize = 0;
        let mut minus = false;
        if self.starts_with("-") {
            pos += 1;
            minus = true;
        }
        let digits_from = pos;
        pos = self.scanner_number(digits_from);
        if minus && pos == 1 {
            0
        } else {
            pos
        }
    }

    /// The length of the boolean connector at the front of the buffer.
    pub fn scanner_and_or(&mut self) -> (len: usize)
        ensures
            *final(self) == *old(self),
            len == and_or_len(old(self)@),
    {
        proof {
            reveal_strlit("&&");
            reveal_strlit("||");
        }
        if self.starts_with("||") || self.starts_with("&&") {
            2
        } else {
            0
        }
    }
}

/// The longest match wins: whenever the spelling of a control operator
/// stands at the front of `text`, the operator that is reported stands
/// there too and is spelled with at least as many characters. The one case
/// in which none is reported although one stands there is `&` directly
/// before `>`.
pub proof fn lemma_control_operator_is_longest(text: Seq<char>, op: ControlOperator)
    requires
        op.spelling().is_prefix_of(text),
    ensures
        match control_operator(text) {
            Some(found) => found.spelling().is_prefix_of(text) && op.spelling().len()
                <= found.spelling().len(),
            None => op == ControlOperator::BgAnd && text.len() > 1 && text[1] == '>',
        },
{
    lemma_prefix_of_three(text, ';', ';', '&');
    lemma_prefix_of_two(text, '|', '|');
    lemma_prefix_of_two(text, '&', '&');
    lemma_prefix_of_two(text, ';', ';');
    lemma_prefix_of_two(text, ';', '&');
    lemma_prefix_of_two(text, '|', '&');
    lemma_prefix_of_one(text, '&');
    lemma_prefix_of_one(text, '\n');
    lemma_prefix_of_one(text, '|');
    lemma_prefix_of_one(text, ';');
    lemma_prefix_of_one(text, '(');
    lemma_prefix_of_one(text, ')');
}

/// Where no control operator is reported, none stands at the front of
/// `text`, but for `&` directly before `>`.
pub proof fn lemma_control_operator_none(text: Seq<char>)
    requires
        control_operator(text) is None,
        !seq!['&', '>'].is_prefix_of(text),
    ensures
        forall|op: ControlOperator| !(#[trigger] op.spelling()).is_prefix_of(text),
{
    assert forall|op: ControlOperator| !(#[trigger] op.spelling()).is_prefix_of(text) by {
        if op.spelling().is_prefix_of(text) {
            lemma_control_operator_is_longest(text, op);
            lemma_prefix_of_two(text, '&', '>');
        }
    }
}

/// The longest match wins: whenever the spelling of a redirection operator
/// stands at the front of `text`, the operator that is reported stands
/// there too and is spelled with at least as many characters.
pub proof fn lemma_redirect_operator_is_longest(text: Seq<char>, op: RedirectOp)
    requires
        op.spelling().is_prefix_of(text),
    ensures
        redirect_operator(text) matches Some(found) && found.spelling().is_prefix_of(text)
            && op.spelling().len() <= found.spelling().len(),
{
    lemma_prefix_of_three(text, '<', '<', '<');
    lemma_prefix_of_three(text, '&', '>', '>');
    lemma_prefix_of_two(text, '>', '>');
    lemma_prefix_of_two(text, '<', '<');
    lemma_prefix_of_two(text, '>', '&');
    lemma_prefix_of_two(text, '&', '>');
    lemma_prefix_of_two(text, '<', '>');
    lemma_prefix_of_one(text, '>');
    lemma_prefix_of_one(text, '<');
}

/// Where the first character of `text` that is no space or tab is not `#`,
/// or `text` holds spaces and tabs only, no comment stands at the front of
/// `text`.
pub proof fn lemma_comment_needs_hash(text: Seq<char>)
    requires
        ({
            let first = span_end(text, 0, CharClass::Blank);
            !(first < text.len() && text[first] == '#')
        }),
    ensures
        comment_len(text) == 0,
{
}

} // verus!
