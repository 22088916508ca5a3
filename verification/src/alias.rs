//! The script-expansion mechanism behind alias commands: a template script
//! with positional placeholders, validated against a minimum argument count at
//! construction time, and expanded into a concrete nested script at
//! invocation time.
//!
//! A placeholder is `${N}`: a dollar sign, an opening brace, one to nine
//! decimal digits, and a closing brace. `N` counts arguments from one. Text
//! that does not have this exact shape is copied into the expansion verbatim.

use vstd::prelude::*;
use vstd::string::*;

use crate::command::CommandResultView;

verus! {

/// The result of invoking an alias command: with too few arguments the
/// argument-count error, otherwise a request to the interpreter to run the
/// substituted template.
pub open spec fn alias_run_result(a: AliasView, args: Seq<Seq<char>>) -> CommandResultView {
    if args.len() < a.min_args {
        CommandResultView::Error(arg_count_error())
    } else {
        CommandResultView::Expand(substitute(a.template, args))
    }
}

/// The digit value of a character, if it is a decimal digit.
pub open spec fn digit_of(c: char) -> Option<nat> {
    if c == '0' {
        Some(0 as nat)
    } else if c == '1' {
        Some(1 as nat)
    } else if c == '2' {
        Some(2 as nat)
    } else if c == '3' {
        Some(3 as nat)
    } else if c == '4' {
        Some(4 as nat)
    } else if c == '5' {
        Some(5 as nat)
    } else if c == '6' {
        Some(6 as nat)
    } else if c == '7' {
        Some(7 as nat)
    } else if c == '8' {
        Some(8 as nat)
    } else if c == '9' {
        Some(9 as nat)
    } else {
        None
    }
}

pub open spec fn is_digit(c: char) -> bool {
    digit_of(c) is Some
}

pub open spec fn digit_val(c: char) -> nat {
    match digit_of(c) {
        Some(d) => d,
        None => 0,
    }
}

/// The first position at or after `i` that does not hold a decimal digit.
pub open spec fn digits_end(t: Seq<char>, i: int) -> int
    decreases t.len() - i,
{
    if i < 0 || i >= t.len() || !is_digit(t[i]) {
        i
    } else {
        digits_end(t, i + 1)
    }
}

/// The number denoted by the digits `t[i .. j)`, most significant first.
pub open spec fn parse_digits(t: Seq<char>, i: int, j: int) -> nat
    decreases j - i,
{
    if i >= j {
        0
    } else {
        parse_digits(t, i, j - 1) * 10 + digit_val(t[j - 1])
    }
}

/// Whether a placeholder `${N}` starts at position `i` of `t`.
pub open spec fn has_placeholder_at(t: Seq<char>, i: int) -> bool {
    &&& 0 <= i
    &&& i + 2 < t.len()
    &&& t[i] == '$'
    &&& t[i + 1] == '{'
    &&& digits_end(t, i + 2) > i + 2
    &&& digits_end(t, i + 2) - (i + 2) <= 9
    &&& digits_end(t, i + 2) < t.len()
    &&& t[digits_end(t, i + 2)] == '}'
}

/// The argument number of the placeholder starting at `i`.
pub open spec fn placeholder_index(t: Seq<char>, i: int) -> nat {
    parse_digits(t, i + 2, digits_end(t, i + 2))
}

/// The first position after the placeholder starting at `i`.
pub open spec fn placeholder_after(t: Seq<char>, i: int) -> int {
    digits_end(t, i + 2) + 1
}

/// The expansion of the template suffix `t[i ..]` with `args` substituted for
/// the positional placeholders. A placeholder whose number is zero or exceeds
/// the argument count expands to nothing; alias construction rules such
/// templates out, so an invocation with enough arguments never meets one.
pub open spec fn substitute_from(t: Seq<char>, args: Seq<Seq<char>>, i: int) -> Seq<char>
    decreases t.len() - i,
{
    if i < 0 || i >= t.len() {
        Seq::empty()
    } else if has_placeholder_at(t, i) {
        let n = placeholder_index(t, i);
        (if 1 <= n && n <= args.len() {
            args[n as int - 1]
        } else {
            Seq::empty()
        }) + substitute_from(t, args, placeholder_after(t, i))
    } else {
        seq![t[i]] + substitute_from(t, args, i + 1)
    }
}

/// The expansion of the whole template.
pub open spec fn substitute(t: Seq<char>, args: Seq<Seq<char>>) -> Seq<char> {
    substitute_from(t, args, 0)
}

/// Whether every placeholder in `t[i ..]` names an argument position between
/// one and `min_args`.
pub open spec fn consistent_from(t: Seq<char>, min_args: nat, i: int) -> bool
    decreases t.len() - i,
{
    if i < 0 || i >= t.len() {
        true
    } else if has_placeholder_at(t, i) {
        &&& 1 <= placeholder_index(t, i)
        &&& placeholder_index(t, i) <= min_args
        &&& consistent_from(t, min_args, placeholder_after(t, i))
    } else {
        consistent_from(t, min_args, i + 1)
    }
}

/// Whether the template only references argument positions that the declared
/// minimum argument count guarantees.
pub open spec fn template_consistent(t: Seq<char>, min_args: nat) -> bool {
    consistent_from(t, min_args, 0)
}

pub open spec fn is_blank(c: char) -> bool {
    c == ' ' || c == '\t' || c == '\r' || c == '\n'
}

/// A template of only whitespace declares no behavior and is rejected.
pub open spec fn all_blank(t: Seq<char>) -> bool {
    forall|i: int| 0 <= i < t.len() ==> is_blank(t[i])
}

/// The message of the construction failure for a whitespace-only template.
pub open spec fn empty_script_error() -> Seq<char> {
    "Alias script is empty."@
}

/// The message of the construction failure for a template that references an
/// argument position beyond the declared minimum count.
pub open spec fn inconsistent_template_error() -> Seq<char> {
    "Alias script references arguments beyond the declared minimum count."@
}

/// The message of the invocation failure for too few arguments.
pub open spec fn arg_count_error() -> Seq<char> {
    "Invalid arguments provided."@
}

spec fn pow10(n: nat) -> nat
    decreases n,
{
    if n == 0 {
        1
    } else {
        10 * pow10((n - 1) as nat)
    }
}

proof fn lemma_digits_end_all_digits(t: Seq<char>, i: int)
    requires
        0 <= i <= t.len(),
    ensures
        i <= digits_end(t, i) <= t.len(),
        forall|k: int| i <= k < digits_end(t, i) ==> is_digit(t[k]),
    decreases t.len() - i,
{
    if i < t.len() && is_digit(t[i]) {
        lemma_digits_end_all_digits(t, i + 1);
    }
}

proof fn lemma_parse_digits_bound(t: Seq<char>, i: int, j: int)
    requires
        i <= j,
    ensures
        parse_digits(t, i, j) < pow10((j - i) as nat),
    decreases j - i,
{
    if i < j {
        lemma_parse_digits_bound(t, i, j - 1);
        assert(digit_val(t[j - 1]) <= 9);
    }
}

proof fn lemma_pow10_9()
    ensures
        pow10(9) == 1000000000,
{
    assert(pow10(0) == 1);
    assert(pow10(1) == 10);
    assert(pow10(2) == 100);
    assert(pow10(3) == 1000);
    assert(pow10(4) == 10000);
    assert(pow10(5) == 100000);
    assert(pow10(6) == 1000000);
    assert(pow10(7) == 10000000);
    assert(pow10(8) == 100000000);
    assert(pow10(9) == 1000000000);
}

/// Relies on `String::push` of std: appends exactly the given character.
#[verifier::external_body]
fn push_char(s: &mut String, c: char)
    ensures
        final(s)@ == old(s)@.push(c),
{
    s.push(c);
}

/// Collects the characters of a string slice.
pub fn str_to_chars(s: &str) -> (r: Vec<char>)
    ensures
        r@ == s@,
{
    let n = s.unicode_len();
    let mut r: Vec<char> = Vec::new();
    let mut i: usize = 0;
    while i < n
        invariant
            n == s@.len(),
            i <= n,
            r@ =~= s@.subrange(0, i as int),
        decreases n - i,
    {
        r.push(s.get_char(i));
        i = i + 1;
    }
    proof {
        assert(r@ =~= s@);
    }
    r
}

fn digit_value(c: char) -> (r: Option<u64>)
    ensures
        match r {
            Some(d) => digit_of(c) == Some(d as nat),
            None => digit_of(c) is None,
        },
{
    if c == '0' {
        Some(0)
    } else if c == '1' {
        Some(1)
    } else if c == '2' {
        Some(2)
    } else if c == '3' {
        Some(3)
    } else if c == '4' {
        Some(4)
    } else if c == '5' {
        Some(5)
    } else if c == '6' {
        Some(6)
    } else if c == '7' {
        Some(7)
    } else if c == '8' {
        Some(8)
    } else if c == '9' {
        Some(9)
    } else {
        None
    }
}

/// Recognizes the placeholder starting at position `p`, returning its
/// argument number and the position just after it.
fn scan_placeholder(t: &Vec<char>, p: usize) -> (r: Option<(u64, usize)>)
    requires
        p < t@.len(),
    ensures
        match r {
            Some(pair) => {
                &&& has_placeholder_at(t@, p as int)
                &&& pair.0 as nat == placeholder_index(t@, p as int)
                &&& pair.1 as int == placeholder_after(t@, p as int)
                &&& p < pair.1 <= t@.len()
            },
            None => !has_placeholder_at(t@, p as int),
        },
{
    let len = t.len();
    if t[p] != '$' {
        return None;
    }
    if p + 1 >= len {
        return None;
    }
    if t[p + 1] != '{' {
        return None;
    }
    if p + 2 >= len {
        return None;
    }
    let mut j: usize = p + 2;
    while j < t.len() && digit_value(t[j]).is_some()
        invariant
            p + 2 <= j <= t@.len(),
            t@.len() == len,
            digits_end(t@, p as int + 2) == digits_end(t@, j as int),
        decreases t@.len() - j,
    {
        j = j + 1;
    }
    assert(digits_end(t@, j as int) == j as int);
    let de: usize = j;
    if de == p + 2 {
        return None;
    }
    if de - (p + 2) > 9 {
        return None;
    }
    if de >= len {
        return None;
    }
    if t[de] != '}' {
        return None;
    }
    proof {
        lemma_digits_end_all_digits(t@, p as int + 2);
    }
    let mut val: u64 = 0;
    let mut k: usize = p + 2;
    while k < de
        invariant
            p + 2 <= k <= de,
            de <= t@.len(),
            de - (p + 2) <= 9,
            val as nat == parse_digits(t@, p as int + 2, k as int),
            val < 1000000000,
            forall|x: int| p + 2 <= x < de ==> is_digit(t@[x]),
            digits_end(t@, p as int + 2) == de as int,
        decreases de - k,
    {
        let d = match digit_value(t[k]) {
            Some(d) => d,
            None => 0,
        };
        proof {
            lemma_parse_digits_bound(t@, p as int + 2, k as int);
            lemma_pow10_monotone((k - (p + 2)) as nat, 8);
            lemma_pow10_9();
            assert(pow10(9) == 10 * pow10(8));
            assert(val < pow10(8));
            assert(d <= 9);
        }
        val = val * 10 + d;
        k = k + 1;
    }
    Some((val, de + 1))
}

proof fn lemma_pow10_monotone(a: nat, b: nat)
    requires
        a <= b,
    ensures
        pow10(a) <= pow10(b),
    decreases b,
{
    if a < b {
        lemma_pow10_monotone(a, (b - 1) as nat);
        assert(pow10(b) == 10 * pow10((b - 1) as nat));
    }
}

/// Expands the template over `args`: literal text is copied, each placeholder
/// `${N}` becomes the `N`th argument.
fn substitute_exec(t: &Vec<char>, args: &Vec<String>) -> (r: String)
    ensures
        r@ == substitute(t@, args.deep_view()),
{
    let ghost argsv = args.deep_view();
    let mut out = String::new();
    let mut p: usize = 0;
    while p < t.len()
        invariant
            p <= t@.len(),
            argsv == args.deep_view(),
            out@ + substitute_from(t@, argsv, p as int) == substitute_from(t@, argsv, 0),
        decreases t@.len() - p,
    {
        let ghost out0 = out@;
        let ghost p0 = p as int;
        match scan_placeholder(t, p) {
            Some(pair) => {
                let n = pair.0;
                if n >= 1 && n <= args.len() as u64 {
                    out.append(args[(n - 1) as usize].as_str());
                    proof {
                        assert(args.deep_view()[n as int - 1] == args@[n as int - 1]@);
                    }
                }
                p = pair.1;
            },
            None => {
                push_char(&mut out, t[p]);
                proof {
                    assert(out@ =~= out0 + seq![t@[p0]]);
                }
                p = p + 1;
            },
        }
        proof {
            assert(out@ + substitute_from(t@, argsv, p as int) =~= out0 + substitute_from(
                t@,
                argsv,
                p0,
            ));
        }
    }
    proof {
        assert(out@ + substitute_from(t@, argsv, p as int) =~= out@);
    }
    out
}

/// Checks that every placeholder of the template names an argument position
/// between one and `min_args`.
fn check_template(t: &Vec<char>, min_args: usize) -> (r: bool)
    ensures
        r == template_consistent(t@, min_args as nat),
{
    let mut p: usize = 0;
    while p < t.len()
        invariant
            p <= t@.len(),
            consistent_from(t@, min_args as nat, 0) == consistent_from(t@, min_args as nat, p as int),
        decreases t@.len() - p,
    {
        match scan_placeholder(t, p) {
            Some(pair) => {
                if pair.0 < 1 || pair.0 > min_args as u64 {
                    return false;
                }
                p = pair.1;
            },
            None => {
                p = p + 1;
            },
        }
    }
    true
}

fn char_is_blank(c: char) -> (r: bool)
    ensures
        r == is_blank(c),
{
    c == ' ' || c == '\t' || c == '\r' || c == '\n'
}

fn chars_all_blank(t: &Vec<char>) -> (r: bool)
    ensures
        r == all_blank(t@),
{
    let mut i: usize = 0;
    while i < t.len()
        invariant
            i <= t@.len(),
            forall|j: int| 0 <= j < i ==> is_blank(t@[j]),
        decreases t@.len() - i,
    {
        if !char_is_blank(t[i]) {
            return false;
        }
        i = i + 1;
    }
    true
}

/// The declared, not coded, behavior of an alias command: a template script, a
/// minimum argument count that the template was validated against, and the
/// lookup name of the primary command the alias stands for (kept for
/// diagnostics).
pub struct AliasScript {
    template: Vec<char>,
    min_args: usize,
    delegate: String,
}

/// The mathematical shape of an [`AliasScript`].
pub struct AliasView {
    pub template: Seq<char>,
    pub min_args: nat,
    pub delegate: Seq<char>,
}

impl View for AliasScript {
    type V = AliasView;

    closed spec fn view(&self) -> AliasView {
        AliasView {
            template: self.template@,
            min_args: self.min_args as nat,
            delegate: self.delegate@,
        }
    }
}

impl Clone for AliasScript {
    fn clone(&self) -> (r: Self)
        ensures
            r@ == self@,
    {
        let r = AliasScript {
            template: self.template.clone(),
            min_args: self.min_args,
            delegate: self.delegate.clone(),
        };
        proof {
            assert(r.template@ =~= self.template@);
        }
        r
    }
}

impl AliasScript {
    /// Validates the template against the declared minimum argument count and
    /// captures the alias behavior. Fails when the template is all
    /// whitespace, or when it references an argument position that
    /// `min_args` does not guarantee; both are construction-time
    /// misconfigurations, reported before any script runs.
    pub fn create(delegate: String, template: &String, min_args: usize) -> (r: Result<
        AliasScript,
        String,
    >)
        ensures
            match r {
                Ok(a) => {
                    &&& !all_blank(template@)
                    &&& template_consistent(template@, min_args as nat)
                    &&& a@ == (AliasView {
                        template: template@,
                        min_args: min_args as nat,
                        delegate: delegate@,
                    })
                },
                Err(m) => {
                    &&& all_blank(template@) || !template_consistent(template@, min_args as nat)
                    &&& m@ == if all_blank(template@) {
                        empty_script_error()
                    } else {
                        inconsistent_template_error()
                    }
                },
            },
    {
        let chars = str_to_chars(template.as_str());
        if chars_all_blank(&chars) {
            Err(String::from_str("Alias script is empty."))
        } else if !check_template(&chars, min_args) {
            Err(String::from_str(
                "Alias script references arguments beyond the declared minimum count.",
            ))
        } else {
            Ok(AliasScript { template: chars, min_args, delegate })
        }
    }

    /// The minimum number of arguments an invocation must supply.
    pub fn min_arg_count(&self) -> (r: usize)
        ensures
            r as nat == self@.min_args,
    {
        self.min_args
    }

    /// The lookup name of the command this alias delegates to.
    pub fn delegate_name(&self) -> (r: String)
        ensures
            r@ == self@.delegate,
    {
        self.delegate.clone()
    }

    /// Validates the argument count and produces the nested script text: the
    /// template with the arguments substituted for its placeholders. With too
    /// few arguments it fails with the argument-count error instead, and no
    /// script text exists for the interpreter to run.
    pub fn expand(&self, args: &Vec<String>) -> (r: Result<String, String>)
        ensures
            match r {
                Ok(s) => args@.len() >= self@.min_args && s@ == substitute(
                    self@.template,
                    args.deep_view(),
                ),
                Err(m) => args@.len() < self@.min_args && m@ == arg_count_error(),
            },
    {
        if args.len() < self.min_args {
            Err(String::from_str("Invalid arguments provided."))
        } else {
            Ok(substitute_exec(&self.template, args))
        }
    }
}

} // verus!
