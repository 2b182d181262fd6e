//! The tokenizer: splits source text into lines, strips `//` comments, trims
//! surrounding whitespace, and splits each remaining line into tokens, with
//! commas treated as token separators.

use vstd::prelude::*;

use vstd::string::StrSliceExecFns;
use vstd::string::StringExecFns;

verus! {

#[derive(Debug, PartialEq)]
pub struct Line {
    pub line_number: usize,
    pub text: String,
}

#[derive(Debug)]
pub struct Token {
    pub token: String,
    pub position: usize,
}

#[derive(Debug)]
pub struct TokenizedLine {
    pub line: Line,
    pub tokens: Vec<Token>,
}

/// A tokenized line as the contracts see it: its 1-based line number, its
/// original text, and its tokens' characters.
#[verifier::ext_equal]
pub ghost struct TokenizedLineView {
    pub line_number: int,
    pub text: Seq<char>,
    pub tokens: Seq<Seq<char>>,
}

impl View for TokenizedLine {
    type V = TokenizedLineView;

    open spec fn view(&self) -> TokenizedLineView {
        TokenizedLineView {
            line_number: self.line.line_number as int,
            text: self.line.text@,
            tokens: self.tokens@.map_values(|t: Token| t.token@),
        }
    }
}

/// The whitespace characters the tokenizer strips and splits on.
pub open spec fn is_space_char(c: char) -> bool {
    c == ' ' || c == '\t' || c == '\n' || c == '\r' || c == '\x0b' || c == '\x0c'
}

/// Whether a character separates tokens: whitespace, or a comma, which the
/// grammar allows between operands.
pub open spec fn is_sep_char(c: char) -> bool {
    is_space_char(c) || c == ','
}

fn is_space(c: char) -> (r: bool)
    ensures
        r == is_space_char(c),
{
    c == ' ' || c == '\t' || c == '\n' || c == '\r' || c == '\x0b' || c == '\x0c'
}

fn is_sep(c: char) -> (r: bool)
    ensures
        r == is_sep_char(c),
{
    is_space(c) || c == ','
}

/// Whether two string slices hold the same characters.
#[verifier::loop_isolation(false)]
pub fn str_eq(a: &str, b: &str) -> (r: bool)
    ensures
        r == (a@ == b@),
{
    let la = a.unicode_len();
    let lb = b.unicode_len();
    if la != lb {
        proof {
            assert(a@ != b@);
        }
        return false;
    }
    let mut i: usize = 0;
    while i < la
        invariant
            la == a@.len() == b@.len(),
            i <= la,
            forall|j: int| 0 <= j < i ==> a@[j] == b@[j],
        decreases la - i,
    {
        if a.get_char(i) != b.get_char(i) {
            return false;
        }
        i = i + 1;
    }
    proof {
        assert(a@ =~= b@);
    }
    true
}

/// Where the first `//` at or after position `i` begins, or the text's
/// length if there is none.
pub open spec fn comment_start_from(s: Seq<char>, i: int) -> int
    decreases s.len() - i
        when 0 <= i <= s.len()
{
    if i + 2 > s.len() {
        s.len() as int
    } else if s[i] == '/' && s[i + 1] == '/' {
        i
    } else {
        comment_start_from(s, i + 1)
    }
}

pub proof fn lemma_comment_start_bounds(s: Seq<char>, i: int)
    requires
        0 <= i <= s.len(),
    ensures
        i <= comment_start_from(s, i) <= s.len(),
    decreases s.len() - i,
{
    if i + 2 > s.len() {
    } else if s[i] == '/' && s[i + 1] == '/' {
    } else {
        lemma_comment_start_bounds(s, i + 1);
    }
}

/// The text with everything from the first `//` onward removed.
pub open spec fn strip_comments_spec(s: Seq<char>) -> Seq<char> {
    s.subrange(0, comment_start_from(s, 0))
}

#[verifier::loop_isolation(false)]
pub fn strip_comments(line: String) -> (r: String)
    ensures
        r@ == strip_comments_spec(line@),
{
    let s = line.as_str();
    let n = s.unicode_len();
    let mut i: usize = 0;
    proof {
        lemma_comment_start_bounds(s@, 0);
    }
    while i < n && i + 1 < n
        invariant
            n == s@.len(),
            0 <= i <= n,
            comment_start_from(s@, 0) == comment_start_from(s@, i as int),
        decreases n - i,
    {
        if s.get_char(i) == '/' && s.get_char(i + 1) == '/' {
            let r = String::from_str(s.substring_char(0, i));
            proof {
                assert(comment_start_from(s@, i as int) == i);
            }
            return r;
        }
        i = i + 1;
    }
    proof {
        assert(comment_start_from(s@, i as int) == s@.len() as int);
        assert(line@.subrange(0, line@.len() as int) =~= line@);
    }
    line
}

/// Where the leading run of whitespace ends.
pub open spec fn trim_start_idx(s: Seq<char>, i: int) -> int
    decreases s.len() - i
        when 0 <= i <= s.len()
{
    if i == s.len() {
        i
    } else if is_space_char(s[i]) {
        trim_start_idx(s, i + 1)
    } else {
        i
    }
}

/// Where the trailing run of whitespace begins, scanning down from `j`.
pub open spec fn trim_end_idx(s: Seq<char>, j: int) -> int
    decreases j
        when 0 <= j <= s.len()
{
    if j == 0 {
        0
    } else if is_space_char(s[j - 1]) {
        trim_end_idx(s, j - 1)
    } else {
        j
    }
}

pub proof fn lemma_trim_bounds(s: Seq<char>, i: int, j: int)
    requires
        0 <= i <= s.len(),
        0 <= j <= s.len(),
    ensures
        i <= trim_start_idx(s, i) <= s.len(),
        0 <= trim_end_idx(s, j) <= j,
    decreases s.len() - i + j,
{
    if i < s.len() && is_space_char(s[i]) {
        lemma_trim_bounds(s, i + 1, j);
    }
    if j > 0 && is_space_char(s[j - 1]) {
        lemma_trim_bounds(s, i, j - 1);
    }
}

/// The text without leading and trailing whitespace.
pub open spec fn trim_spec(s: Seq<char>) -> Seq<char> {
    let a = trim_start_idx(s, 0);
    let b = trim_end_idx(s, s.len() as int);
    if a <= b {
        s.subrange(a, b)
    } else {
        Seq::empty()
    }
}

#[verifier::loop_isolation(false)]
pub fn trim(line: &str) -> (r: String)
    ensures
        r@ == trim_spec(line@),
{
    let n = line.unicode_len();
    let mut a: usize = 0;
    proof {
        lemma_trim_bounds(line@, 0, line@.len() as int);
    }
    while a < n && is_space(line.get_char(a))
        invariant
            n == line@.len(),
            0 <= a <= n,
            trim_start_idx(line@, 0) == trim_start_idx(line@, a as int),
        decreases n - a,
    {
        a = a + 1;
    }
    let mut b: usize = n;
    while b > 0 && is_space(line.get_char(b - 1))
        invariant
            n == line@.len(),
            0 <= b <= n,
            trim_end_idx(line@, n as int) == trim_end_idx(line@, b as int),
        decreases b,
    {
        b = b - 1;
    }
    proof {
        assert(trim_start_idx(line@, a as int) == a);
        assert(trim_end_idx(line@, b as int) == b);
    }
    if a <= b {
        String::from_str(line.substring_char(a, b))
    } else {
        String::new()
    }
}

/// Where the first line break at or after position `i` is, or the text's
/// length if there is none.
pub open spec fn newline_from(s: Seq<char>, i: int) -> int
    decreases s.len() - i
        when 0 <= i <= s.len()
{
    if i == s.len() {
        i
    } else if s[i] == '\n' {
        i
    } else {
        newline_from(s, i + 1)
    }
}

pub proof fn lemma_newline_bounds(s: Seq<char>, i: int)
    requires
        0 <= i <= s.len(),
    ensures
        i <= newline_from(s, i) <= s.len(),
    decreases s.len() - i,
{
    if i < s.len() && s[i] != '\n' {
        lemma_newline_bounds(s, i + 1);
    }
}

/// A line's text without a trailing carriage return.
pub open spec fn strip_cr(t: Seq<char>) -> Seq<char> {
    if t.len() > 0 && t[t.len() - 1] == '\r' {
        t.drop_last()
    } else {
        t
    }
}

/// The line texts from position `p` onward: each line runs to the next line
/// break, which is consumed; a trailing carriage return is stripped.
pub open spec fn split_lines_from(s: Seq<char>, p: int) -> Seq<Seq<char>>
    decreases s.len() - p
        when 0 <= p <= s.len()
{
    if p == s.len() {
        seq![]
    } else {
        let k = newline_from(s, p);
        let line = strip_cr(s.subrange(p, k));
        if k == s.len() {
            seq![line]
        } else {
            proof {
                lemma_newline_bounds(s, p);
            }
            seq![line] + split_lines_from(s, k + 1)
        }
    }
}

/// The source text split into lines, as a reader of the text would number
/// them.
pub open spec fn split_lines_spec(s: Seq<char>) -> Seq<Seq<char>> {
    split_lines_from(s, 0)
}

/// Splits source text into numbered lines; line breaks are consumed and a
/// trailing carriage return is stripped from each line.
#[verifier::loop_isolation(false)]
pub fn split_lines(text: &str) -> (r: Vec<Line>)
    ensures
        r@.len() == split_lines_spec(text@).len(),
        forall|i: int| 0 <= i < r@.len() ==> (#[trigger] r@[i].line_number) == i + 1,
        forall|i: int|
            0 <= i < r@.len() ==> (#[trigger] r@[i].text@) == split_lines_spec(text@)[i],
{
    let n = text.unicode_len();
    let mut result: Vec<Line> = Vec::new();
    let mut p: usize = 0;
    while p < n
        invariant
            n == text@.len(),
            0 <= p <= n,
            result@.len() <= p,
            split_lines_spec(text@) =~= result@.map_values(|l: Line| l.text@)
                + split_lines_from(text@, p as int),
            forall|i: int| 0 <= i < result@.len() ==> (#[trigger] result@[i].line_number) == i + 1,
            forall|i: int|
                0 <= i < result@.len() ==> (#[trigger] result@[i].text@) == split_lines_spec(
                    text@,
                )[i],
        decreases n - p,
    {
        let ghost pre = result@;
        let mut k: usize = p;
        while k < n && text.get_char(k) != '\n'
            invariant
                n == text@.len(),
                p <= k <= n,
                newline_from(text@, p as int) == newline_from(text@, k as int),
            decreases n - k,
        {
            k = k + 1;
        }
        proof {
            assert(newline_from(text@, k as int) == k);
        }
        let end = if k > p && text.get_char(k - 1) == '\r' {
            k - 1
        } else {
            k
        };
        let line_text = String::from_str(text.substring_char(p, end));
        proof {
            assert(line_text@ =~= strip_cr(text@.subrange(p as int, k as int)));
        }
        let line_number = result.len() + 1;
        result.push(Line { line_number, text: line_text });
        proof {
            let lv = strip_cr(text@.subrange(p as int, k as int));
            let pre_views = pre.map_values(|l: Line| l.text@);
            let rest = if k < n {
                split_lines_from(text@, k as int + 1)
            } else {
                Seq::<Seq<char>>::empty()
            };
            if k == n {
                assert(split_lines_from(text@, p as int) =~= seq![lv]);
                assert(seq![lv] + rest =~= seq![lv]);
            }
            assert(result@.map_values(|l: Line| l.text@) =~= pre_views + seq![lv]);
            assert(split_lines_from(text@, p as int) =~= seq![lv] + rest);
            assert(pre_views + (seq![lv] + rest) =~= (pre_views + seq![lv]) + rest);
            assert(split_lines_spec(text@) =~= (pre_views + seq![lv]) + rest);
            assert(split_lines_spec(text@)[pre.len() as int] == lv);
            assert forall|i: int|
                0 <= i < result@.len() implies (#[trigger] result@[i].line_number) == i + 1 && (
                result@[i].text@) == split_lines_spec(text@)[i] by {
                if i < pre.len() {
                    assert(result@[i] == pre[i]);
                    assert(pre[i].text@ == split_lines_spec(text@)[i]);
                    assert(pre[i].line_number == i + 1);
                } else {
                    assert(result@[i].text@ == lv);
                }
            }
        }
        if k < n {
            p = k + 1;
        } else {
            p = n;
            proof {
                assert(split_lines_from(text@, p as int) =~= Seq::<Seq<char>>::empty());
                assert(split_lines_spec(text@) =~= result@.map_values(|l: Line| l.text@)
                    + split_lines_from(text@, p as int));
            }
        }
    }
    proof {
        assert(split_lines_from(text@, n as int) =~= Seq::<Seq<char>>::empty());
        assert(split_lines_spec(text@) =~= result@.map_values(|l: Line| l.text@));
    }
    result
}

/// Where the token that begins before position `i` ends: the first separator
/// at or after `i`, or the text's length.
pub open spec fn token_end(s: Seq<char>, i: int) -> int
    decreases s.len() - i
        when 0 <= i <= s.len()
{
    if i == s.len() {
        i
    } else if is_sep_char(s[i]) {
        i
    } else {
        token_end(s, i + 1)
    }
}

pub proof fn lemma_token_end_bounds(s: Seq<char>, i: int)
    requires
        0 <= i <= s.len(),
    ensures
        i <= token_end(s, i) <= s.len(),
    decreases s.len() - i,
{
    if i < s.len() && !is_sep_char(s[i]) {
        lemma_token_end_bounds(s, i + 1);
    }
}

/// The tokens from position `i` onward: maximal runs of non-separator
/// characters.
pub open spec fn tokens_from(s: Seq<char>, i: int) -> Seq<Seq<char>>
    decreases s.len() - i
        when 0 <= i <= s.len()
{
    if i == s.len() {
        seq![]
    } else if is_sep_char(s[i]) {
        tokens_from(s, i + 1)
    } else {
        proof {
            lemma_token_end_bounds(s, i + 1);
        }
        let j = token_end(s, i + 1);
        seq![s.subrange(i, j)] + tokens_from(s, j)
    }
}

/// A line's tokens: the line split on whitespace, with commas counting as
/// whitespace.
pub open spec fn tokenize_line_spec(s: Seq<char>) -> Seq<Seq<char>> {
    tokens_from(s, 0)
}

/// The characters each token holds.
pub open spec fn token_views(ts: Seq<Token>) -> Seq<Seq<char>> {
    ts.map_values(|t: Token| t.token@)
}

#[verifier::loop_isolation(false)]
pub fn tokenize_line(text: &str) -> (r: Vec<Token>)
    ensures
        token_views(r@) == tokenize_line_spec(text@),
{
    let n = text.unicode_len();
    let mut result: Vec<Token> = Vec::new();
    let mut p: usize = 0;
    while p < n
        invariant
            n == text@.len(),
            0 <= p <= n,
            tokenize_line_spec(text@) =~= token_views(result@) + tokens_from(text@, p as int),
        decreases n - p,
    {
        if is_sep(text.get_char(p)) {
            p = p + 1;
        } else {
            let ghost pre = result@;
            let mut j: usize = p + 1;
            while j < n && !is_sep(text.get_char(j))
                invariant
                    n == text@.len(),
                    p + 1 <= j <= n,
                    token_end(text@, (p + 1) as int) == token_end(text@, j as int),
                decreases n - j,
            {
                j = j + 1;
            }
            proof {
                assert(token_end(text@, j as int) == j);
            }
            let token_text = String::from_str(text.substring_char(p, j));
            result.push(Token { token: token_text, position: 0 });
            proof {
                assert(token_views(result@) =~= token_views(pre) + seq![
                    text@.subrange(p as int, j as int),
                ]);
            }
            p = j;
        }
    }
    proof {
        assert(tokens_from(text@, n as int) =~= Seq::<Seq<char>>::empty());
        assert(token_views(result@) =~= tokenize_line_spec(text@));
    }
    result
}

/// The tokenized lines from line index `i` onward: each line is stripped of
/// its comment and trimmed, empty lines are skipped, and the rest carry
/// their original text and 1-based number together with their tokens.
pub open spec fn tokenize_lines(lines: Seq<Seq<char>>, i: int) -> Seq<TokenizedLineView>
    decreases lines.len() - i
        when 0 <= i <= lines.len()
{
    if i == lines.len() {
        seq![]
    } else {
        let cleaned = trim_spec(strip_comments_spec(lines[i]));
        if cleaned.len() == 0 {
            tokenize_lines(lines, i + 1)
        } else {
            seq![
                TokenizedLineView {
                    line_number: i + 1,
                    text: lines[i],
                    tokens: tokenize_line_spec(cleaned),
                },
            ] + tokenize_lines(lines, i + 1)
        }
    }
}

/// The source text tokenized: comment-stripped, trimmed, comma-and-space
/// separated tokens for every non-blank line.
pub open spec fn tokenize_spec(text: Seq<char>) -> Seq<TokenizedLineView> {
    tokenize_lines(split_lines_spec(text), 0)
}

#[verifier::loop_isolation(false)]
pub fn tokenize(text: &str) -> (r: Vec<TokenizedLine>)
    ensures
        r@.map_values(|tl: TokenizedLine| tl@) == tokenize_spec(text@),
{
    let lines = split_lines(text);
    let ghost line_texts = lines@.map_values(|l: Line| l.text@);
    proof {
        assert forall|k: int|
            0 <= k < line_texts.len() implies line_texts[k] == split_lines_spec(text@)[k] by {
            assert(lines@[k].text@ == split_lines_spec(text@)[k]);
        }
        assert(line_texts =~= split_lines_spec(text@));
    }
    let mut tokenized_lines: Vec<TokenizedLine> = Vec::new();
    let mut i: usize = 0;
    while i < lines.len()
        invariant
            0 <= i <= lines@.len(),
            tokenize_lines(line_texts, 0) =~= tokenized_lines@.map_values(|tl: TokenizedLine| tl@)
                + tokenize_lines(line_texts, i as int),
        decreases lines@.len() - i,
    {
        let ghost pre = tokenized_lines@;
        proof {
            assert(lines@[i as int].text@ == line_texts[i as int]);
            assert(lines@[i as int].line_number == i + 1);
        }
        let original = &lines[i];
        let cleaned = trim(strip_comments(original.text.clone()).as_str());
        if !cleaned.as_str().is_empty() {
            let tokens = tokenize_line(cleaned.as_str());
            let line = Line { line_number: original.line_number, text: original.text.clone() };
            tokenized_lines.push(TokenizedLine { line, tokens });
            proof {
                let tlv = TokenizedLineView {
                    line_number: i + 1,
                    text: line_texts[i as int],
                    tokens: tokenize_line_spec(trim_spec(strip_comments_spec(line_texts[i as int]))),
                };
                let pre_views = pre.map_values(|tl: TokenizedLine| tl@);
                let rest = tokenize_lines(line_texts, i as int + 1);
                let pushed = tokenized_lines@[pre.len() as int];
                assert(pushed@.line_number == i + 1);
                assert(pushed@.text == line_texts[i as int]);
                assert(pushed@.tokens == tokenize_line_spec(
                    trim_spec(strip_comments_spec(line_texts[i as int])),
                ));
                assert(pushed@ =~= tlv);
                assert(tokenized_lines@.map_values(|tl: TokenizedLine| tl@) =~= pre_views + seq![
                    tlv,
                ]);
                assert(tokenize_lines(line_texts, i as int) =~= seq![tlv] + rest);
                assert(pre_views + (seq![tlv] + rest) =~= (pre_views + seq![tlv]) + rest);
            }
        }
        i = i + 1;
    }
    proof {
        assert(tokenize_lines(line_texts, lines@.len() as int) =~= Seq::<
            TokenizedLineView,
        >::empty());
        assert(tokenized_lines@.map_values(|tl: TokenizedLine| tl@) =~= tokenize_spec(text@));
    }
    tokenized_lines
}

} // verus!
