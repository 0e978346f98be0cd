//! Naming rules: how function names become enum names and back.

use vstd::prelude::*;
use crate::text::{
    chars_of, push_char, push_str, is_uppercase, lowercase_of, uppercase_of, uppercase_property, lowercase_mapping,
    uppercase_mapping, is_ascii_char, is_ascii_upper, is_ascii_lower, ascii_lowercase, ascii_uppercase,
};

verus! {

/// What the character at `i` contributes to the snake_case form: an
/// underscore before an uppercase character other than the first, then the
/// lowercase mapping of the character.
pub open spec fn snake_piece(s: Seq<char>, i: int) -> Seq<char> {
    (if uppercase_property(s[i]) && i != 0 { seq!['_'] } else { Seq::empty() })
        + lowercase_mapping(s[i])
}

/// The snake_case form of the first `n` characters of `s`.
pub open spec fn snake_case_upto(s: Seq<char>, n: nat) -> Seq<char>
    decreases n,
{
    if n == 0 {
        Seq::empty()
    } else {
        snake_case_upto(s, (n - 1) as nat) + snake_piece(s, n - 1)
    }
}

/// The snake_case form of `s`.
pub open spec fn snake_case(s: Seq<char>) -> Seq<char> {
    snake_case_upto(s, s.len())
}

/// What the character at `i` contributes to the CamelCase form: the words
/// between underscores are kept, with the first character of each word
/// replaced by its uppercase mapping, and the underscores dropped.
pub open spec fn camel_piece(s: Seq<char>, i: int) -> Seq<char> {
    if s[i] == '_' {
        Seq::empty()
    } else if i == 0 || s[i - 1] == '_' {
        uppercase_mapping(s[i])
    } else {
        seq![s[i]]
    }
}

/// The CamelCase form of the first `n` characters of `s`.
pub open spec fn camel_case_upto(s: Seq<char>, n: nat) -> Seq<char>
    decreases n,
{
    if n == 0 {
        Seq::empty()
    } else {
        camel_case_upto(s, (n - 1) as nat) + camel_piece(s, n - 1)
    }
}

/// The CamelCase form of `s`.
pub open spec fn camel_case(s: Seq<char>) -> Seq<char> {
    camel_case_upto(s, s.len())
}

/// Formats a CamelCase name to snake_case.
pub fn format_snake_case(prefix: &str) -> (r: String)
    ensures
        r@ == snake_case(prefix@),
{
    let cs = chars_of(prefix);
    let mut formatted = String::new();
    let mut i: usize = 0;
    while i < cs.len()
        invariant
            cs@ == prefix@,
            i <= cs.len(),
            formatted@ == snake_case_upto(prefix@, i as nat),
        decreases cs.len() - i,
    {
        let c = cs[i];
        if is_uppercase(c) && i != 0 {
            push_char(&mut formatted, '_');
        }
        let lower = lowercase_of(c);
        push_str(&mut formatted, lower.as_str());
        proof {
            assert(snake_case_upto(prefix@, (i + 1) as nat) == snake_case_upto(prefix@, i as nat)
                + snake_piece(prefix@, i as int));
        }
        i += 1;
    }
    formatted
}

/// Formats a snake_case name to CamelCase.
pub fn format_camel_case(base: &str) -> (r: String)
    ensures
        r@ == camel_case(base@),
{
    let cs = chars_of(base);
    let mut formatted = String::new();
    let mut i: usize = 0;
    while i < cs.len()
        invariant
            cs@ == base@,
            i <= cs.len(),
            formatted@ == camel_case_upto(base@, i as nat),
        decreases cs.len() - i,
    {
        let c = cs[i];
        if c == '_' {
        } else if i == 0 || cs[i - 1] == '_' {
            let upper = uppercase_of(c);
            push_str(&mut formatted, upper.as_str());
        } else {
            push_char(&mut formatted, c);
        }
        proof {
            assert(camel_case_upto(base@, (i + 1) as nat) == camel_case_upto(base@, i as nat)
                + camel_piece(base@, i as int));
        }
        i += 1;
    }
    formatted
}

// ---------------------------------------------------------------------------
// Laws of the two forms
// ---------------------------------------------------------------------------

/// The number of underscores in a text.
pub open spec fn underscores(s: Seq<char>) -> nat
    decreases s.len(),
{
    if s.len() == 0 {
        0
    } else {
        underscores(s.drop_last()) + if s.last() == '_' { 1nat } else { 0nat }
    }
}

/// Every character of the text is ASCII.
pub open spec fn all_ascii(s: Seq<char>) -> bool {
    forall|i: int| 0 <= i < s.len() ==> is_ascii_char(#[trigger] s[i])
}

/// A snake_case name: ASCII lowercase letters, digits and underscores,
/// starting with a letter, each underscore followed by a letter.
pub open spec fn is_snake_name(s: Seq<char>) -> bool {
    &&& forall|i: int| 0 <= i < s.len() ==> is_ascii_lower(#[trigger] s[i]) || ('0' <= s[i] && s[i] <= '9') || s[i] == '_'
    &&& s.len() > 0 ==> is_ascii_lower(s[0])
    &&& forall|i: int| 0 <= i < s.len() && #[trigger] s[i] == '_' ==> i + 1 < s.len() && is_ascii_lower(s[i + 1])
}

proof fn lemma_camel_prefix_shape(s: Seq<char>, n: nat)
    requires
        all_ascii(s),
        n <= s.len(),
    ensures
        ({
            let r = camel_case_upto(s, n);
            &&& all_ascii(r)
            &&& !r.contains('_')
            &&& r.len() == n - underscores(s.take(n as int))
            &&& r.len() > 0 ==> !is_ascii_lower(r[0])
            &&& r.len() == 0 ==> forall|j: int| 0 <= j < n ==> s[j] == '_'
        }),
    decreases n,
{
    if n == 0 {
        assert(s.take(0) =~= Seq::<char>::empty());
    } else {
        let m = (n - 1) as nat;
        lemma_camel_prefix_shape(s, m);
        let prev = camel_case_upto(s, m);
        let piece = camel_piece(s, m as int);
        let r = camel_case_upto(s, n);
        assert(r == prev + piece);
        assert(s.take(n as int).drop_last() =~= s.take(m as int));
        assert(s.take(n as int).last() == s[m as int]);
        let c = s[m as int];
        assert(is_ascii_char(c));
        if c == '_' {
            assert(piece =~= Seq::<char>::empty());
            assert(r =~= prev);
        } else {
            assert(piece.len() == 1);
            assert(piece[0] != '_' && is_ascii_char(piece[0]));
            if prev.len() == 0 {
                assert(m == 0 || s[m - 1] == '_');
                assert(!is_ascii_lower(piece[0]));
            }
        }
        assert forall|i: int| 0 <= i < r.len() implies is_ascii_char(#[trigger] r[i]) by {
            if i < prev.len() {
                assert(r[i] == prev[i]);
            } else {
                assert(r[i] == piece[i - prev.len()]);
            }
        }
        if r.contains('_') {
            let i = choose|i: int| 0 <= i < r.len() && r[i] == '_';
            if i < prev.len() {
                assert(prev[i] == '_');
                assert(prev.contains('_'));
            } else {
                assert(piece[i - prev.len()] == '_');
            }
        }
        if r.len() > 0 && prev.len() > 0 {
            assert(r[0] == prev[0]);
        }
    }
}

proof fn lemma_camel_of_camel_form(r: Seq<char>, m: nat)
    requires
        all_ascii(r),
        !r.contains('_'),
        r.len() > 0 ==> !is_ascii_lower(r[0]),
        m <= r.len(),
    ensures
        camel_case_upto(r, m) == r.take(m as int),
    decreases m,
{
    if m > 0 {
        let k = (m - 1) as nat;
        lemma_camel_of_camel_form(r, k);
        assert(r[k as int] != '_') by {
            if r[k as int] == '_' {
                assert(r.contains('_'));
            }
        }
        assert(is_ascii_char(r[k as int]));
        if k > 0 {
            assert(r[k - 1] != '_') by {
                if r[k - 1] == '_' {
                    assert(r.contains('_'));
                }
            }
        }
        assert(camel_piece(r, k as int) =~= seq![r[k as int]]);
        assert(r.take(m as int) =~= r.take(k as int) + seq![r[k as int]]);
    }
}

/// For an ASCII name, the CamelCase form drops every underscore and keeps
/// one character for each other character, and forming it again changes
/// nothing.
pub proof fn lemma_camel_case_shape(s: Seq<char>)
    requires
        all_ascii(s),
    ensures
        !camel_case(s).contains('_'),
        camel_case(s).len() == s.len() - underscores(s),
        camel_case(camel_case(s)) == camel_case(s),
{
    lemma_camel_prefix_shape(s, s.len());
    assert(s.take(s.len() as int) =~= s);
    let r = camel_case(s);
    lemma_camel_of_camel_form(r, r.len());
    assert(r.take(r.len() as int) =~= r);
}

proof fn lemma_snake_upto_push(a: Seq<char>, c: char, n: nat)
    requires
        n <= a.len(),
    ensures
        snake_case_upto(a.push(c), n) == snake_case_upto(a, n),
    decreases n,
{
    if n > 0 {
        lemma_snake_upto_push(a, c, (n - 1) as nat);
        assert(a.push(c)[n - 1] == a[n - 1]);
    }
}

proof fn lemma_snake_push(a: Seq<char>, c: char)
    ensures
        snake_case(a.push(c)) == snake_case(a)
            + (if uppercase_property(c) && a.len() != 0 { seq!['_'] } else { Seq::empty() })
            + lowercase_mapping(c),
{
    lemma_snake_upto_push(a, c, a.len());
    assert(a.push(c)[a.len() as int] == c);
}

proof fn lemma_snake_of_camel_upto(s: Seq<char>, n: nat)
    requires
        is_snake_name(s),
        1 <= n <= s.len(),
    ensures
        camel_case_upto(s, n).len() > 0,
        s[n - 1] != '_' ==> snake_case(camel_case_upto(s, n)) == s.take(n as int),
        s[n - 1] == '_' ==> snake_case(camel_case_upto(s, n)) == s.take(n - 1),
    decreases n,
{
    if n == 1 {
        let c0 = s[0];
        assert(is_ascii_lower(c0));
        assert(camel_case_upto(s, 0) =~= Seq::<char>::empty());
        assert(camel_piece(s, 0) =~= seq![ascii_uppercase(c0)]);
        assert(camel_case_upto(s, 1) =~= Seq::<char>::empty().push(ascii_uppercase(c0)));
        lemma_snake_push(Seq::<char>::empty(), ascii_uppercase(c0));
        assert(snake_case(Seq::<char>::empty()) =~= Seq::<char>::empty());
        assert(s.take(1) =~= seq![c0]);
    } else {
        let m = (n - 1) as nat;
        lemma_snake_of_camel_upto(s, m);
        let r = camel_case_upto(s, m);
        let c = s[m as int];
        assert(camel_case_upto(s, n) == r + camel_piece(s, m as int));
        if c == '_' {
            assert(camel_case_upto(s, n) =~= r);
            if s[m - 1] == '_' {
                assert(is_ascii_lower(s[m as int]));
            }
        } else if s[m - 1] == '_' {
            assert(is_ascii_lower(c));
            let u = ascii_uppercase(c);
            assert(camel_case_upto(s, n) =~= r.push(u));
            lemma_snake_push(r, u);
            assert(s.take(n as int) =~= s.take(m - 1) + seq!['_'] + seq![c]);
        } else {
            assert(!is_ascii_upper(c) && is_ascii_char(c));
            assert(camel_case_upto(s, n) =~= r.push(c));
            lemma_snake_push(r, c);
            assert(s.take(n as int) =~= s.take(m as int) + seq![c]);
        }
    }
}

/// A snake_case name comes back unchanged from its CamelCase form:
/// `format_snake_case(&format_camel_case(s)) == s`.
pub proof fn lemma_snake_of_camel(s: Seq<char>)
    requires
        is_snake_name(s),
    ensures
        snake_case(camel_case(s)) == s,
{
    if s.len() == 0 {
        assert(camel_case(s) =~= Seq::<char>::empty());
        assert(snake_case(Seq::<char>::empty()) =~= s);
    } else {
        lemma_snake_of_camel_upto(s, s.len());
        assert(s[s.len() - 1] != '_');
        assert(s.take(s.len() as int) =~= s);
    }
}

} // verus!
