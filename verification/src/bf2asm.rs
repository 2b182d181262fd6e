//! A transpiler from a minimal tape language to assembly text. Programs use
//! two working registers — `r0` as the tape pointer and `r1` as the current
//! cell's value — the byte load/store, immediate-arithmetic, compare and
//! branch mnemonics, and a uniquely numbered pair of generated labels per
//! loop. It consumes only the assembler's textual grammar.

use vstd::prelude::*;

use vstd::string::StrSliceExecFns;
use vstd::string::StringExecFns;
use vstd::wrapping::u32_specs;

verus! {

#[derive(Debug)]
pub enum BFError {
    Argument(String),
    Parser(String),
}

#[derive(Debug, PartialEq)]
pub enum BFToken {
    ModValue(i32),
    ModPointer(i32),
    Loop(Vec<BFToken>),
    Input,
    Output,
}

/// A token as the contracts see it, with a loop's body as a sequence.
#[verifier::ext_equal]
pub ghost enum BFTokenView {
    ModValue(i32),
    ModPointer(i32),
    Loop(Seq<BFTokenView>),
    Input,
    Output,
}

/// The view of one token.
pub open spec fn bft_view(t: BFToken) -> BFTokenView
    decreases t, 1int,
{
    match t {
        BFToken::ModValue(v) => BFTokenView::ModValue(v),
        BFToken::ModPointer(v) => BFTokenView::ModPointer(v),
        BFToken::Loop(body) => {
            proof {
                assert(decreases_to!(t => body));
                assert(decreases_to!(body => body@));
            }
            BFTokenView::Loop(frame_view(body@))
        },
        BFToken::Input => BFTokenView::Input,
        BFToken::Output => BFTokenView::Output,
    }
}

/// The views of a run of tokens.
pub open spec fn frame_view(s: Seq<BFToken>) -> Seq<BFTokenView>
    decreases s, 0int,
{
    if s.len() == 0 {
        Seq::empty()
    } else {
        frame_view(s.drop_last()).push(bft_view(s.last()))
    }
}

/// A run's view is its tokens' views, in order.
pub proof fn lemma_frame_view(s: Seq<BFToken>)
    ensures
        frame_view(s).len() == s.len(),
        forall|i: int| 0 <= i < s.len() ==> frame_view(s)[i] == bft_view(#[trigger] s[i]),
    decreases s.len(),
{
    if s.len() > 0 {
        lemma_frame_view(s.drop_last());
        assert forall|i: int| 0 <= i < s.len() implies frame_view(s)[i] == bft_view(
            #[trigger] s[i],
        ) by {
            if i < s.len() - 1 {
                assert(s.drop_last()[i] == s[i]);
                assert(frame_view(s)[i] == frame_view(s.drop_last())[i]);
            } else {
                assert(s[i] == s.last());
            }
        }
    }
}

/// How deeply loops nest in a run of tokens, the termination measure for
/// walking the tree.
pub open spec fn bfts_height(s: Seq<BFTokenView>) -> nat
    decreases s,
{
    if s.len() == 0 {
        0
    } else {
        let h0 = match s[0] {
            BFTokenView::Loop(body) => 1 + bfts_height(body),
            _ => 0,
        };
        let hr = bfts_height(s.drop_first());
        if h0 >= hr {
            h0
        } else {
            hr
        }
    }
}

pub proof fn lemma_height_elem(s: Seq<BFTokenView>, i: int)
    requires
        0 <= i < s.len(),
        s[i] is Loop,
    ensures
        bfts_height(s[i]->Loop_0) < bfts_height(s),
    decreases i,
{
    if i == 0 {
    } else {
        lemma_height_elem(s.drop_first(), i - 1);
        assert(s.drop_first()[i - 1] == s[i]);
    }
}

/// Whether a run of tokens is free of the input token, which this
/// transpiler does not implement.
pub open spec fn input_free(s: Seq<BFTokenView>, i: int) -> bool
    decreases bfts_height(s), s.len() - i
        when 0 <= i <= s.len()
{
    if i == s.len() {
        true
    } else {
        let head_ok = match s[i] {
            BFTokenView::Input => false,
            BFTokenView::Loop(body) => {
                proof {
                    lemma_height_elem(s, i);
                }
                input_free(body, 0)
            },
            _ => true,
        };
        head_ok && input_free(s, i + 1)
    }
}

/// A digit as a character.
pub open spec fn digit_char(d: u32) -> char {
    match d {
        0u32 => '0',
        1u32 => '1',
        2u32 => '2',
        3u32 => '3',
        4u32 => '4',
        5u32 => '5',
        6u32 => '6',
        7u32 => '7',
        8u32 => '8',
        9u32 => '9',
        _ => '0',
    }
}

/// A number written in decimal, most significant digit first.
pub open spec fn u32_dec_digits(n: u32) -> Seq<char>
    decreases n,
{
    if n < 10 {
        seq![digit_char(n)]
    } else {
        u32_dec_digits(n / 10).push(digit_char(n % 10))
    }
}

fn digit_str(d: u32) -> (r: &'static str)
    requires
        d < 10,
    ensures
        r@ == seq![digit_char(d)],
{
    proof {
        reveal_strlit("0");
        reveal_strlit("1");
        reveal_strlit("2");
        reveal_strlit("3");
        reveal_strlit("4");
        reveal_strlit("5");
        reveal_strlit("6");
        reveal_strlit("7");
        reveal_strlit("8");
        reveal_strlit("9");
    }
    let r = match d {
        0 => "0",
        1 => "1",
        2 => "2",
        3 => "3",
        4 => "4",
        5 => "5",
        6 => "6",
        7 => "7",
        8 => "8",
        _ => "9",
    };
    proof {
        assert(r@ =~= seq![digit_char(d)]);
    }
    r
}

/// Renders a number in decimal.
pub fn u32_to_dec(n: u32) -> (r: String)
    ensures
        r@ == u32_dec_digits(n),
    decreases n,
{
    if n < 10 {
        String::from_str(digit_str(n))
    } else {
        let mut s = u32_to_dec(n / 10);
        s.append(digit_str(n % 10));
        proof {
            assert(s@ =~= u32_dec_digits(n / 10).push(digit_char(n % 10)));
        }
        s
    }
}

/// The magnitude of a pointer or value change, as the operand it is written
/// with.
pub open spec fn magnitude(value: i32) -> u32 {
    if value >= 0 {
        value as u32
    } else {
        (-(value as int)) as u32
    }
}

/// The assembly text for the tokens of `s` from index `i` on, with `level`
/// numbering the next generated loop label, paired with the level left for
/// whatever follows.
pub open spec fn gen_from(s: Seq<BFTokenView>, i: int, level: u32) -> (Seq<char>, u32)
    decreases bfts_height(s), s.len() - i
        when 0 <= i <= s.len()
{
    if i == s.len() {
        (Seq::empty(), level)
    } else {
        let (head, lvl1): (Seq<char>, u32) = match s[i] {
            BFTokenView::Input => (Seq::empty(), level),
            BFTokenView::Output => ("    stdb r1, CONSOLEIO_START\n"@, level),
            BFTokenView::Loop(body) => {
                proof {
                    lemma_height_elem(s, i);
                }
                let label = "label_"@ + u32_dec_digits(level);
                let (inner, lvl2) = gen_from(body, 0, u32_specs::wrapping_add(level, 1));
                (
                    label + "_before:\n"@ + "    cmpi r1, 0\n"@ + "    breq "@ + label
                        + "_after\n"@ + inner + "    jmp "@ + label + "_before\n"@ + label
                        + "_after:\n"@,
                    lvl2,
                )
            },
            BFTokenView::ModPointer(value) => {
                let mid = if value > 0 {
                    "    addi r0, r0, "@ + u32_dec_digits(magnitude(value)) + "\n"@
                } else {
                    "    subi r0, r0, "@ + u32_dec_digits(magnitude(value)) + "\n"@
                };
                ("    stb r1, r0\n"@ + mid + "    ldb r1, r0\n"@, level)
            },
            BFTokenView::ModValue(value) => {
                if value > 0 {
                    ("    addi r1, r1, "@ + u32_dec_digits(magnitude(value)) + "\n"@, level)
                } else {
                    ("    subi r1, r1, "@ + u32_dec_digits(magnitude(value)) + "\n"@, level)
                }
            },
        };
        let (rest, lvl_end) = gen_from(s, i + 1, lvl1);
        (head + rest, lvl_end)
    }
}

/// Emits the assembly for a run of tokens, numbering generated loop labels
/// from `level` on; the text and the next free level are exactly `gen_from`
/// of the tokens.
#[verifier::rlimit(100)]
#[verifier::spinoff_prover]
#[verifier::loop_isolation(false)]
pub fn generate_recursive(tokens: &Vec<BFToken>, level: u32) -> (r: (String, u32))
    requires
        input_free(frame_view(tokens@), 0),
    ensures
        (r.0@, r.1) == gen_from(frame_view(tokens@), 0, level),
    decreases bfts_height(frame_view(tokens@)),
{
    let ghost views = frame_view(tokens@);
    proof {
        lemma_frame_view(tokens@);
    }
    let mut buffer = String::new();
    let mut lvl: u32 = level;
    let mut i: usize = 0;
    while i < tokens.len()
        invariant
            0 <= i <= tokens@.len(),
            views == frame_view(tokens@),
            views.len() == tokens@.len(),
            input_free(views, i as int),
            gen_from(views, 0, level) == (
                {
                    let (rest, lvl_end) = gen_from(views, i as int, lvl);
                    (buffer@ + rest, lvl_end)
                }),
        decreases tokens@.len() - i,
    {
        proof {
            lemma_frame_view(tokens@);
            assert(views[i as int] == bft_view(tokens@[i as int]));
        }
        let ghost pre = buffer@;
        let ghost pre_lvl = lvl;
        match &tokens[i] {
            BFToken::Input => {
                // the transpiler's callers never hand it an input token
            },
            BFToken::Output => {
                buffer.append("    stdb r1, CONSOLEIO_START\n");
            },
            BFToken::Loop(loop_tokens) => {
                proof {
                    lemma_height_elem(views, i as int);
                    assert(views[i as int]->Loop_0 == frame_view(loop_tokens@));
                }
                let mut label = String::from_str("label_");
                label.append(u32_to_dec(lvl).as_str());
                let ghost label_view = "label_"@ + u32_dec_digits(pre_lvl);

                buffer.append(label.as_str());
                buffer.append("_before:\n");
                buffer.append("    cmpi r1, 0\n");
                buffer.append("    breq ");
                buffer.append(label.as_str());
                buffer.append("_after\n");

                let inner = generate_recursive(loop_tokens, lvl.wrapping_add(1));
                lvl = inner.1;
                buffer.append(inner.0.as_str());

                buffer.append("    jmp ");
                buffer.append(label.as_str());
                buffer.append("_before\n");
                buffer.append(label.as_str());
                buffer.append("_after:\n");
                proof {
                    let (inner_s, lvl2) = gen_from(
                        views[i as int]->Loop_0,
                        0,
                        u32_specs::wrapping_add(pre_lvl, 1),
                    );
                    assert(buffer@ =~= pre + (label_view + "_before:\n"@ + "    cmpi r1, 0\n"@
                        + "    breq "@ + label_view + "_after\n"@ + inner_s + "    jmp "@
                        + label_view + "_before\n"@ + label_view + "_after:\n"@));
                }
            },
            BFToken::ModPointer(value) => {
                let v = *value;
                buffer.append("    stb r1, r0\n");
                let mag: u32 = if v > 0 {
                    v as u32
                } else {
                    (-(v as i64)) as u32
                };
                if v > 0 {
                    buffer.append("    addi r0, r0, ");
                } else {
                    buffer.append("    subi r0, r0, ");
                }
                buffer.append(u32_to_dec(mag).as_str());
                buffer.append("\n");
                buffer.append("    ldb r1, r0\n");
                proof {
                    let mid = if v > 0 {
                        "    addi r0, r0, "@ + u32_dec_digits(magnitude(v)) + "\n"@
                    } else {
                        "    subi r0, r0, "@ + u32_dec_digits(magnitude(v)) + "\n"@
                    };
                    assert(buffer@ =~= pre + ("    stb r1, r0\n"@ + mid + "    ldb r1, r0\n"@));
                }
            },
            BFToken::ModValue(value) => {
                let v = *value;
                let mag: u32 = if v > 0 {
                    v as u32
                } else {
                    (-(v as i64)) as u32
                };
                if v > 0 {
                    buffer.append("    addi r1, r1, ");
                } else {
                    buffer.append("    subi r1, r1, ");
                }
                buffer.append(u32_to_dec(mag).as_str());
                buffer.append("\n");
                proof {
                    if v > 0 {
                        assert(buffer@ =~= pre + ("    addi r1, r1, "@ + u32_dec_digits(
                            magnitude(v),
                        ) + "\n"@));
                    } else {
                        assert(buffer@ =~= pre + ("    subi r1, r1, "@ + u32_dec_digits(
                            magnitude(v),
                        ) + "\n"@));
                    }
                }
            },
        }
        proof {
            let (head, lvl1) = match views[i as int] {
                BFTokenView::Input => (Seq::<char>::empty(), pre_lvl),
                BFTokenView::Output => ("    stdb r1, CONSOLEIO_START\n"@, pre_lvl),
                BFTokenView::Loop(body) => {
                    let label = "label_"@ + u32_dec_digits(pre_lvl);
                    let (inner_s, lvl2) = gen_from(body, 0, u32_specs::wrapping_add(pre_lvl, 1));
                    (
                        label + "_before:\n"@ + "    cmpi r1, 0\n"@ + "    breq "@ + label
                            + "_after\n"@ + inner_s + "    jmp "@ + label + "_before\n"@ + label
                            + "_after:\n"@,
                        lvl2,
                    )
                },
                BFTokenView::ModPointer(value) => {
                    let mid = if value > 0 {
                        "    addi r0, r0, "@ + u32_dec_digits(magnitude(value)) + "\n"@
                    } else {
                        "    subi r0, r0, "@ + u32_dec_digits(magnitude(value)) + "\n"@
                    };
                    ("    stb r1, r0\n"@ + mid + "    ldb r1, r0\n"@, pre_lvl)
                },
                BFTokenView::ModValue(value) => {
                    if value > 0 {
                        ("    addi r1, r1, "@ + u32_dec_digits(magnitude(value)) + "\n"@, pre_lvl)
                    } else {
                        ("    subi r1, r1, "@ + u32_dec_digits(magnitude(value)) + "\n"@, pre_lvl)
                    }
                },
            };
            assert(buffer@ =~= pre + head);
            assert(lvl == lvl1);
            let (rest, lvl_end) = gen_from(views, i + 1, lvl1);
            assert(pre + (head + rest) =~= (pre + head) + rest);
        }
        i = i + 1;
    }
    proof {
        assert(gen_from(views, tokens@.len() as int, lvl) == (Seq::<char>::empty(), lvl));
        assert(buffer@ + Seq::<char>::empty() =~= buffer@);
    }
    (buffer, lvl)
}

/// The complete program text: the pointer register is parked past the
/// program's own code, the tokens' text follows, and the machine halts.
pub open spec fn generate_spec(tokens: Seq<BFTokenView>) -> Seq<char> {
    "    ldi r0, PROGRAM_END\n"@ + gen_from(tokens, 0, 0).0 + "    halt\n"@
}

/// Whether two adjacent tokens can be folded into one, the transpiler's one
/// peephole optimization: equal kinds of change whose sum stays in range.
pub open spec fn can_merge(a: BFTokenView, b: BFTokenView) -> bool {
    ||| (a is ModValue && b is ModValue && i32::MIN <= a->ModValue_0 + b->ModValue_0 <= i32::MAX)
    ||| (a is ModPointer && b is ModPointer && i32::MIN <= a->ModPointer_0 + b->ModPointer_0
        <= i32::MAX)
}

/// The folded token.
pub open spec fn merged(a: BFTokenView, b: BFTokenView) -> BFTokenView {
    if a is ModValue {
        BFTokenView::ModValue((a->ModValue_0 + b->ModValue_0) as i32)
    } else {
        BFTokenView::ModPointer((a->ModPointer_0 + b->ModPointer_0) as i32)
    }
}

/// A token appended to a run: folded into the run's last token when the
/// optimization is on and the pair is foldable, appended otherwise.
pub open spec fn frame_push_spec(frame: Seq<BFTokenView>, t: BFTokenView, opt: bool) -> Seq<
    BFTokenView,
> {
    if opt && frame.len() > 0 && can_merge(frame.last(), t) {
        frame.update(frame.len() - 1, merged(frame.last(), t))
    } else {
        frame.push(t)
    }
}

#[verifier::loop_isolation(false)]
fn frame_push(frame: &mut Vec<BFToken>, token: BFToken, optimize: bool)
    ensures
        frame_view(final(frame)@) == frame_push_spec(
            frame_view(old(frame)@),
            bft_view(token),
            optimize,
        ),
{
    proof {
        lemma_frame_view(frame@);
    }
    let ghost pre = frame_view(frame@);
    if optimize && frame.len() > 0 {
        let last_idx = frame.len() - 1;
        let folded: Option<BFToken> = match (&frame[last_idx], &token) {
            (BFToken::ModValue(i), BFToken::ModValue(j)) => {
                match i.checked_add(*j) {
                    Some(sum) => Some(BFToken::ModValue(sum)),
                    None => None,
                }
            },
            (BFToken::ModPointer(i), BFToken::ModPointer(j)) => {
                match i.checked_add(*j) {
                    Some(sum) => Some(BFToken::ModPointer(sum)),
                    None => None,
                }
            },
            _ => None,
        };
        if let Some(f) = folded {
            proof {
                assert(pre.last() == bft_view(frame@[last_idx as int]));
                assert(can_merge(pre.last(), bft_view(token)));
            }
            frame[last_idx] = f;
            proof {
                lemma_frame_view(frame@);
                assert(bft_view(f) == merged(pre.last(), bft_view(token)));
                assert forall|k: int|
                    0 <= k < pre.len() implies frame_view(frame@)[k] == pre.update(
                    pre.len() - 1,
                    merged(pre.last(), bft_view(token)),
                )[k] by {
                    if k < pre.len() - 1 {
                        assert(frame@[k] == old(frame)@[k]);
                        assert(pre[k] == bft_view(old(frame)@[k]));
                    }
                }
                assert(frame_view(frame@) =~= pre.update(
                    pre.len() - 1,
                    merged(pre.last(), bft_view(token)),
                ));
            }
            return ;
        }
        proof {
            assert(pre.last() == bft_view(frame@[last_idx as int]));
            assert(!can_merge(pre.last(), bft_view(token)));
        }
    }
    frame.push(token);
    proof {
        assert(frame@.drop_last() =~= old(frame)@);
        assert(frame_view(frame@) =~= pre.push(bft_view(token)));
    }
}

/// The views of the parser's stack of open loop bodies.
pub open spec fn stack_view(st: Seq<Vec<BFToken>>) -> Seq<Seq<BFTokenView>>
    decreases st.len(),
{
    if st.len() == 0 {
        Seq::empty()
    } else {
        stack_view(st.drop_last()).push(frame_view(st.last()@))
    }
}

/// A stack's view has one body per open frame.
pub proof fn lemma_stack_view_len(st: Seq<Vec<BFToken>>)
    ensures
        stack_view(st).len() == st.len(),
    decreases st.len(),
{
    if st.len() > 0 {
        lemma_stack_view_len(st.drop_last());
    }
}

/// A token handed to the innermost open loop body; with no open body left
/// to take it, the parse fails.
pub open spec fn stack_push_spec(
    stack: Seq<Seq<BFTokenView>>,
    t: BFTokenView,
    opt: bool,
) -> Option<Seq<Seq<BFTokenView>>> {
    if stack.len() == 0 {
        None
    } else {
        Some(stack.update(stack.len() - 1, frame_push_spec(stack.last(), t, opt)))
    }
}

/// One source character's effect on the parser's stack: a change token is
/// folded or appended, `[` opens a body, `]` closes the innermost body into
/// a loop token, and any other character is ignored.
pub open spec fn bf_step_spec(stack: Seq<Seq<BFTokenView>>, c: char, opt: bool) -> Result<
    Seq<Seq<BFTokenView>>,
    Seq<char>,
> {
    if c == '+' {
        match stack_push_spec(stack, BFTokenView::ModValue(1), opt) {
            Some(st) => Ok(st),
            None => Err("Mooh"@),
        }
    } else if c == '-' {
        match stack_push_spec(stack, BFTokenView::ModValue(-1i32), opt) {
            Some(st) => Ok(st),
            None => Err("Mooh"@),
        }
    } else if c == '>' {
        match stack_push_spec(stack, BFTokenView::ModPointer(1), opt) {
            Some(st) => Ok(st),
            None => Err("Mooh"@),
        }
    } else if c == '<' {
        match stack_push_spec(stack, BFTokenView::ModPointer(-1i32), opt) {
            Some(st) => Ok(st),
            None => Err("Mooh"@),
        }
    } else if c == '.' {
        match stack_push_spec(stack, BFTokenView::Output, opt) {
            Some(st) => Ok(st),
            None => Err("Mooh"@),
        }
    } else if c == ',' {
        match stack_push_spec(stack, BFTokenView::Input, opt) {
            Some(st) => Ok(st),
            None => Err("Mooh"@),
        }
    } else if c == '[' {
        Ok(stack.push(Seq::empty()))
    } else if c == ']' {
        if stack.len() == 0 {
            Err("Unbalanced number of [ or ]"@)
        } else {
            match stack_push_spec(
                stack.drop_last(),
                BFTokenView::Loop(stack.last()),
                opt,
            ) {
                Some(st) => Ok(st),
                None => Err("Mooh"@),
            }
        }
    } else {
        Ok(stack)
    }
}

/// The parser's stack after the characters from position `i` on.
pub open spec fn bf_run_spec(
    s: Seq<char>,
    i: int,
    stack: Seq<Seq<BFTokenView>>,
    opt: bool,
) -> Result<Seq<Seq<BFTokenView>>, Seq<char>>
    decreases s.len() - i
        when 0 <= i <= s.len()
{
    if i == s.len() {
        Ok(stack)
    } else {
        match bf_step_spec(stack, s[i], opt) {
            Err(m) => Err(m),
            Ok(st) => bf_run_spec(s, i + 1, st, opt),
        }
    }
}

/// The tokens a source text parses to: the single remaining body after all
/// characters, or a parse failure if brackets do not balance.
pub open spec fn bf_parse_spec(s: Seq<char>, opt: bool) -> Result<Seq<BFTokenView>, Seq<char>> {
    match bf_run_spec(s, 0, seq![Seq::<BFTokenView>::empty()], opt) {
        Err(m) => Err(m),
        Ok(st) => if st.len() == 1 {
            Ok(st[0])
        } else {
            Err("Unbalanced number of [ or ]"@)
        },
    }
}

/// Parses a source text into its token tree; adjacent changes of the same
/// kind are folded when `optimize` is on. Fails exactly when the brackets
/// do not balance.
#[verifier::loop_isolation(false)]
pub fn parse(source: &str, optimize: bool) -> (r: Result<Vec<BFToken>, BFError>)
    ensures
        match r {
            Ok(tokens) => bf_parse_spec(source@, optimize) == Ok::<Seq<BFTokenView>, Seq<char>>(
                frame_view(tokens@),
            ),
            Err(e) => {
                &&& bf_parse_spec(source@, optimize) is Err
                &&& e is Parser
                &&& e->Parser_0@ == bf_parse_spec(source@, optimize)->Err_0
            },
        },
{
    let ghost s = source@;
    let mut stack: Vec<Vec<BFToken>> = Vec::new();
    stack.push(Vec::new());
    proof {
        assert(stack@.drop_last() =~= Seq::<Vec<BFToken>>::empty());
        assert(stack_view(Seq::<Vec<BFToken>>::empty()) =~= Seq::<Seq<BFTokenView>>::empty());
        assert(frame_view(stack@.last()@) =~= Seq::<BFTokenView>::empty());
        assert(stack_view(stack@) =~= seq![Seq::<BFTokenView>::empty()]);
    }
    let n = source.unicode_len();
    let mut i: usize = 0;
    while i < n
        invariant
            0 <= i <= n == s.len(),
            bf_run_spec(s, 0, seq![Seq::<BFTokenView>::empty()], optimize) == bf_run_spec(
                s,
                i as int,
                stack_view(stack@),
                optimize,
            ),
        decreases n - i,
    {
        let ghost pre_view = stack_view(stack@);
        let c = source.get_char(i);
        if c == '+' || c == '-' || c == '>' || c == '<' || c == '.' || c == ',' {
            let token = if c == '+' {
                BFToken::ModValue(1)
            } else if c == '-' {
                BFToken::ModValue(-1)
            } else if c == '>' {
                BFToken::ModPointer(1)
            } else if c == '<' {
                BFToken::ModPointer(-1)
            } else if c == '.' {
                BFToken::Output
            } else {
                BFToken::Input
            };
            let ghost tv = bft_view(token);
            let mut top = match stack.pop() {
                Some(t) => t,
                None => {
                    proof {
                        lemma_stack_view_len(stack@);
                    }
                    return Err(BFError::Parser(String::from_str("Mooh")));
                },
            };
            let ghost popped = stack@;
            proof {
                lemma_stack_view_len(popped);
                assert(stack_view(popped) =~= pre_view.drop_last());
                assert(pre_view.last() == frame_view(top@));
            }
            frame_push(&mut top, token, optimize);
            stack.push(top);
            proof {
                assert(stack@.drop_last() =~= popped);
                assert(stack_view(stack@) =~= pre_view.update(
                    pre_view.len() - 1,
                    frame_push_spec(pre_view.last(), tv, optimize),
                ));
            }
        } else if c == '[' {
            let ghost pre_stack = stack@;
            stack.push(Vec::new());
            proof {
                assert(stack@.drop_last() =~= pre_stack);
                assert(frame_view(stack@.last()@) =~= Seq::<BFTokenView>::empty());
                assert(stack_view(stack@) =~= pre_view.push(Seq::<BFTokenView>::empty()));
            }
        } else if c == ']' {
            let body = match stack.pop() {
                Some(b) => b,
                None => {
                    proof {
                        lemma_stack_view_len(stack@);
                    }
                    return Err(BFError::Parser(String::from_str("Unbalanced number of [ or ]")));
                },
            };
            proof {
                lemma_stack_view_len(stack@);
                assert(stack_view(stack@) =~= pre_view.drop_last());
                assert(pre_view.last() == frame_view(body@));
            }
            let ghost bv = frame_view(body@);
            let mut top = match stack.pop() {
                Some(t) => t,
                None => {
                    proof {
                        lemma_stack_view_len(stack@);
                    }
                    return Err(BFError::Parser(String::from_str("Mooh")));
                },
            };
            let ghost popped = stack@;
            proof {
                lemma_stack_view_len(popped);
                assert(stack_view(popped) =~= pre_view.drop_last().drop_last());
                assert(pre_view.drop_last().last() == frame_view(top@));
                assert(bft_view(BFToken::Loop(body)) == BFTokenView::Loop(bv));
            }
            frame_push(&mut top, BFToken::Loop(body), optimize);
            stack.push(top);
            proof {
                assert(stack@.drop_last() =~= popped);
                assert(stack_view(stack@) =~= pre_view.drop_last().update(
                    pre_view.drop_last().len() - 1,
                    frame_push_spec(
                        pre_view.drop_last().last(),
                        BFTokenView::Loop(pre_view.last()),
                        optimize,
                    ),
                ));
            }
        }
        i = i + 1;
    }
    let ghost final_view = stack_view(stack@);
    proof {
        lemma_stack_view_len(stack@);
        assert(bf_run_spec(s, s.len() as int, final_view, optimize) == Ok::<
            Seq<Seq<BFTokenView>>,
            Seq<char>,
        >(final_view));
    }
    if stack.len() != 1 {
        return Err(BFError::Parser(String::from_str("Unbalanced number of [ or ]")));
    }
    let result = match stack.pop() {
        Some(r) => r,
        None => {
            return Err(BFError::Parser(String::from_str("Unbalanced number of [ or ]")));
        },
    };
    proof {
        assert(stack@ =~= Seq::<Vec<BFToken>>::empty());
        assert(final_view =~= seq![frame_view(result@)]);
        assert(final_view[0] == frame_view(result@));
    }
    Ok(result)
}

pub fn generate(tokens: &Vec<BFToken>) -> (r: String)
    requires
        input_free(frame_view(tokens@), 0),
    ensures
        r@ == generate_spec(frame_view(tokens@)),
{
    let mut buffer = String::from_str("    ldi r0, PROGRAM_END\n");
    let result = generate_recursive(tokens, 0);
    buffer.append(result.0.as_str());
    buffer.append("    halt\n");
    proof {
        assert(buffer@ =~= generate_spec(frame_view(tokens@)));
    }
    buffer
}

} // verus!
