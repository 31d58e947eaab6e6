use vstd::prelude::*;
use vstd::string::StrSliceExecFns;

verus! {

/// Characters that count as whitespace when deciding whether a text field is blank.
pub open spec fn es_espacio(c: char) -> bool {
    c == ' ' || c == '\t' || c == '\n' || c == '\r'
}

/// A text is blank when every character is whitespace; the empty text is blank.
pub open spec fn es_blanco(s: Seq<char>) -> bool {
    forall|i: int| 0 <= i < s.len() ==> es_espacio(#[trigger] s[i])
}

/// Decides whether `s` is empty or made only of whitespace.
pub fn texto_en_blanco(s: &str) -> (r: bool)
    ensures
        r == es_blanco(s@),
{
    let n: usize = s.unicode_len();
    let mut i: usize = 0;
    while i < n
        invariant
            0 <= i <= n,
            n == s@.len(),
            forall|j: int| 0 <= j < i ==> es_espacio(#[trigger] s@[j]),
        decreases n - i,
    {
        let c = s.get_char(i);
        if !(c == ' ' || c == '\t' || c == '\n' || c == '\r') {
            return false;
        }
        i += 1;
    }
    true
}

/// Lexicographic order on texts, by code point, shorter prefix first.
pub open spec fn lex_le(a: Seq<char>, b: Seq<char>) -> bool
    decreases a.len(),
{
    if a.len() == 0 {
        true
    } else if b.len() == 0 {
        false
    } else if a[0] == b[0] {
        lex_le(a.drop_first(), b.drop_first())
    } else {
        (a[0] as u32) < (b[0] as u32)
    }
}

/// The lexicographic order is total.
pub proof fn lema_lex_total(a: Seq<char>, b: Seq<char>)
    ensures
        lex_le(a, b) || lex_le(b, a),
    decreases a.len(),
{
    if a.len() != 0 && b.len() != 0 {
        if a[0] == b[0] {
            lema_lex_total(a.drop_first(), b.drop_first());
        } else {
            vstd::utf8::char_u32_cast(a[0], a[0] as u32);
            vstd::utf8::char_u32_cast(b[0], b[0] as u32);
        }
    }
}

/// The character of one decimal digit.
pub open spec fn digito(d: int) -> char {
    if d == 0 {
        '0'
    } else if d == 1 {
        '1'
    } else if d == 2 {
        '2'
    } else if d == 3 {
        '3'
    } else if d == 4 {
        '4'
    } else if d == 5 {
        '5'
    } else if d == 6 {
        '6'
    } else if d == 7 {
        '7'
    } else if d == 8 {
        '8'
    } else {
        '9'
    }
}

/// The decimal writing of a non-negative number, most significant
/// digit first, without leading zeroes.
pub open spec fn decimal_nat(n: int) -> Seq<char>
    recommends
        0 <= n,
    decreases n,
{
    if n < 10 {
        seq![digito(n)]
    } else {
        decimal_nat(n / 10).push(digito(n % 10))
    }
}

/// The decimal writing of an integer: a minus sign first when it is
/// negative.
pub open spec fn decimal_entero(n: int) -> Seq<char> {
    if n < 0 {
        seq!['-'] + decimal_nat(-n)
    } else {
        decimal_nat(n)
    }
}

/// Each one-digit literal reads as that digit.
proof fn lema_digitos()
    ensures
        "0"@ == seq![digito(0)],
        "1"@ == seq![digito(1)],
        "2"@ == seq![digito(2)],
        "3"@ == seq![digito(3)],
        "4"@ == seq![digito(4)],
        "5"@ == seq![digito(5)],
        "6"@ == seq![digito(6)],
        "7"@ == seq![digito(7)],
        "8"@ == seq![digito(8)],
        "9"@ == seq![digito(9)],
{
    reveal_strlit("0");
    reveal_strlit("1");
    reveal_strlit("2");
    reveal_strlit("3");
    reveal_strlit("4");
    reveal_strlit("5");
    reveal_strlit("6");
    reveal_strlit("7");
    reveal_strlit("8");
    reveal_strlit("9");
    assert("0"@ =~= seq![digito(0)]);
    assert("1"@ =~= seq![digito(1)]);
    assert("2"@ =~= seq![digito(2)]);
    assert("3"@ =~= seq![digito(3)]);
    assert("4"@ =~= seq![digito(4)]);
    assert("5"@ =~= seq![digito(5)]);
    assert("6"@ =~= seq![digito(6)]);
    assert("7"@ =~= seq![digito(7)]);
    assert("8"@ =~= seq![digito(8)]);
    assert("9"@ =~= seq![digito(9)]);
}

/// Writes a non-negative number in decimal.
pub fn natural_a_texto(m: u64) -> (r: String)
    ensures
        r@ == decimal_nat(m as int),
    decreases m,
{
    let unidad = match m % 10 {
        0 => "0",
        1 => "1",
        2 => "2",
        3 => "3",
        4 => "4",
        5 => "5",
        6 => "6",
        7 => "7",
        8 => "8",
        _ => "9",
    };
    proof {
        lema_digitos();
    }
    if m < 10 {
        String::from_str(unidad)
    } else {
        let resto = natural_a_texto(m / 10);
        let r = resto.concat(unidad);
        proof {
            assert(r@ =~= decimal_nat((m / 10) as int).push(digito((m % 10) as int)));
        }
        r
    }
}

/// Writes an integer in decimal, with a minus sign when negative.
pub fn entero_a_texto(n: i64) -> (r: String)
    ensures
        r@ == decimal_entero(n as int),
{
    if n >= 0 {
        natural_a_texto(n as u64)
    } else {
        let magnitud: u64 = ((-(n + 1)) as u64) + 1;
        proof {
            assert(magnitud as int == -(n as int));
        }
        let cifras = natural_a_texto(magnitud);
        let r = String::from_str("-").concat(cifras.as_str());
        proof {
            reveal_strlit("-");
            assert("-"@ =~= seq!['-']);
            assert(r@ =~= decimal_entero(n as int));
        }
        r
    }
}

/// The lexicographic order is transitive.
pub proof fn lema_lex_transitiva(a: Seq<char>, b: Seq<char>, c: Seq<char>)
    requires
        lex_le(a, b),
        lex_le(b, c),
    ensures
        lex_le(a, c),
    decreases a.len(),
{
    if a.len() != 0 && b.len() != 0 && c.len() != 0 {
        if a[0] == b[0] && b[0] == c[0] {
            lema_lex_transitiva(a.drop_first(), b.drop_first(), c.drop_first());
        }
    }
}

/// Decides the lexicographic order between two texts.
pub fn texto_le(a: &str, b: &str) -> (r: bool)
    ensures
        r == lex_le(a@, b@),
{
    let na = a.unicode_len();
    let nb = b.unicode_len();
    let mut i: usize = 0;
    proof {
        assert(a@.skip(0) =~= a@);
        assert(b@.skip(0) =~= b@);
    }
    while i < na && i < nb
        invariant
            i <= na,
            i <= nb,
            na == a@.len(),
            nb == b@.len(),
            lex_le(a@, b@) == lex_le(a@.skip(i as int), b@.skip(i as int)),
        decreases na - i,
    {
        let ca = a.get_char(i);
        let cb = b.get_char(i);
        if ca != cb {
            return (ca as u32) < (cb as u32);
        }
        proof {
            assert(a@.skip(i as int).drop_first() =~= a@.skip(i as int + 1));
            assert(b@.skip(i as int).drop_first() =~= b@.skip(i as int + 1));
        }
        i += 1;
    }
    i >= na
}

} // verus!
