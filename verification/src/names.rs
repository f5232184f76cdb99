//! Tag names, attribute names and the names of hoisted template bindings.

use vstd::prelude::*;
use vstd::string::StringExecFns;

verus! {

/// Whether two string slices hold the same characters.
pub fn same_text(a: &str, b: &str) -> (r: bool)
    ensures
        r == (a@ == b@),
{
    let x = a.to_owned();
    let y = b.to_owned();
    x == y
}

/// The tags that can never have children: they are written `<tag ... />`
/// and have no closing tag.
pub open spec fn is_void_tag(name: Seq<char>) -> bool {
    ||| name == "area"@
    ||| name == "base"@
    ||| name == "br"@
    ||| name == "col"@
    ||| name == "embed"@
    ||| name == "hr"@
    ||| name == "img"@
    ||| name == "input"@
    ||| name == "link"@
    ||| name == "meta"@
    ||| name == "param"@
    ||| name == "source"@
    ||| name == "track"@
    ||| name == "wbr"@
}

/// Whether `name` is the tag of a void element.
pub fn is_void_element(name: &str) -> (r: bool)
    ensures
        r == is_void_tag(name@),
{
    same_text(name, "area") || same_text(name, "base") || same_text(name, "br") || same_text(
        name,
        "col",
    ) || same_text(name, "embed") || same_text(name, "hr") || same_text(name, "img") || same_text(
        name,
        "input",
    ) || same_text(name, "link") || same_text(name, "meta") || same_text(name, "param")
        || same_text(name, "source") || same_text(name, "track") || same_text(name, "wbr")
}

/// The attribute name as it is written in markup: three script-side aliases
/// are replaced by the markup names they stand for, every other name is kept.
pub open spec fn normalized_attr_name(name: Seq<char>) -> Seq<char> {
    if name == "htmlFor"@ {
        "for"@
    } else if name == "className"@ {
        "class"@
    } else if name == "xlinkHref"@ {
        "href"@
    } else {
        name
    }
}

/// Maps `htmlFor` to `for`, `className` to `class`, `xlinkHref` to `href`;
/// returns any other name unchanged.
pub fn normalize_dom_attr_name(name: &str) -> (r: String)
    ensures
        r@ == normalized_attr_name(name@),
{
    if same_text(name, "htmlFor") {
        String::from_str("for")
    } else if same_text(name, "className") {
        String::from_str("class")
    } else if same_text(name, "xlinkHref") {
        String::from_str("href")
    } else {
        String::from_str(name)
    }
}

/// Normalizing twice gives what normalizing once gives: no alias maps to
/// another alias.
pub proof fn lemma_normalize_idempotent(name: Seq<char>)
    ensures
        normalized_attr_name(normalized_attr_name(name)) == normalized_attr_name(name),
{
    reveal_strlit("htmlFor");
    reveal_strlit("className");
    reveal_strlit("xlinkHref");
    reveal_strlit("for");
    reveal_strlit("class");
    reveal_strlit("href");
    assert("for"@.len() == 3);
    assert("class"@.len() == 5);
    assert("href"@.len() == 4);
    assert("htmlFor"@.len() == 7);
    assert("className"@.len() == 9);
    assert("xlinkHref"@.len() == 9);
}

/// The character that stands for a digit below ten.
pub open spec fn digit_char(d: nat) -> char {
    if d == 0 {
        '0'
    } else if d == 1 {
        '1'
    } else if d == 2 {
        '2'
    } else if d == 3 {
        '3'
    } else if d == 4 {
        '4'
    } else if d == 5 {
        '5'
    } else if d == 6 {
        '6'
    } else if d == 7 {
        '7'
    } else if d == 8 {
        '8'
    } else {
        '9'
    }
}

/// The decimal numeral of `n`, most significant digit first, without
/// leading zeros.
pub open spec fn decimal(n: nat) -> Seq<char>
    decreases n,
{
    if n < 10 {
        seq![digit_char(n)]
    } else {
        decimal(n / 10).push(digit_char(n % 10))
    }
}

/// The name of the binding that holds the template with the given index.
pub open spec fn binding_name(index: nat) -> Seq<char> {
    "$$_tpl_"@ + decimal(index)
}

fn digit_text(d: usize) -> (s: &'static str)
    requires
        d < 10,
    ensures
        s@ == seq![digit_char(d as nat)],
{
    proof {
        reveal_strlit("0");
        reveal_strlit("1");
        reveal_strlit("2");
        reveal_strlit("3");
        reveal_strlit("4");
        reveal_strlit("5");
        reveal_strlit("6");
        reveal_strlit("7");
        reveal_strlit("8");
        reveal_strlit("9");
    }
    let s = if d == 0 {
        "0"
    } else if d == 1 {
        "1"
    } else if d == 2 {
        "2"
    } else if d == 3 {
        "3"
    } else if d == 4 {
        "4"
    } else if d == 5 {
        "5"
    } else if d == 6 {
        "6"
    } else if d == 7 {
        "7"
    } else if d == 8 {
        "8"
    } else {
        "9"
    };
    assert(s@ =~= seq![digit_char(d as nat)]);
    s
}

/// Appends the decimal numeral of `n` to `out`.
fn push_decimal(out: &mut String, n: usize)
    ensures
        final(out)@ == old(out)@ + decimal(n as nat),
    decreases n,
{
    if n < 10 {
        out.append(digit_text(n));
    } else {
        push_decimal(out, n / 10);
        out.append(digit_text(n % 10));
        assert(out@ =~= old(out)@ + decimal(n as nat));
    }
}

/// The name under which the template with this index is hoisted:
/// the prefix `$$_tpl_` followed by the index in decimal.
pub fn create_tpl_binding_name(index: usize) -> (name: String)
    ensures
        name@ == binding_name(index as nat),
{
    let mut name = String::from_str("$$_tpl_");
    push_decimal(&mut name, index);
    name
}

proof fn lemma_decimal_len(n: nat)
    ensures
        decimal(n).len() >= 1,
        n >= 10 ==> decimal(n).len() >= 2,
    decreases n,
{
    if n >= 10 {
        lemma_decimal_len(n / 10);
    }
}

proof fn lemma_digit_char_injective(a: nat, b: nat)
    requires
        a < 10,
        b < 10,
        digit_char(a) == digit_char(b),
    ensures
        a == b,
{
}

/// Different numbers have different numerals.
pub proof fn lemma_decimal_injective(a: nat, b: nat)
    requires
        decimal(a) == decimal(b),
    ensures
        a == b,
    decreases a,
{
    lemma_decimal_len(a);
    lemma_decimal_len(b);
    if a < 10 {
        assert(decimal(a).len() == 1);
        assert(b < 10);
        assert(decimal(a)[0] == digit_char(a));
        assert(decimal(b)[0] == digit_char(b));
        lemma_digit_char_injective(a, b);
    } else {
        assert(decimal(b).len() >= 2);
        assert(b >= 10);
        let da = decimal(a / 10);
        let db = decimal(b / 10);
        assert(decimal(a).drop_last() =~= da);
        assert(decimal(b).drop_last() =~= db);
        assert(decimal(a).last() == digit_char(a % 10));
        assert(decimal(b).last() == digit_char(b % 10));
        lemma_digit_char_injective(a % 10, b % 10);
        lemma_decimal_injective(a / 10, b / 10);
    }
}

/// Templates with different indices are hoisted under different names.
pub proof fn lemma_binding_name_injective(a: nat, b: nat)
    requires
        binding_name(a) == binding_name(b),
    ensures
        a == b,
{
    let p = "$$_tpl_"@;
    let n = p.len() as int;
    assert(binding_name(a).subrange(n, binding_name(a).len() as int) =~= decimal(a));
    assert(binding_name(b).subrange(n, binding_name(b).len() as int) =~= decimal(b));
    lemma_decimal_injective(a, b);
}

} // verus!
