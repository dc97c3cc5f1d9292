//! Práca s textom: znaky, čísla v desiatkovej sústave, orezávanie medzier.
use vstd::prelude::*;
use vstd::string::StringExecFns;

verus! {

/// Znaky reťazca ako vektor.
pub fn znaky(s: &str) -> (r: Vec<char>)
    ensures
        r@ == s@,
{
    let mut r: Vec<char> = Vec::new();
    for c in it: s.chars()
        invariant
            r@ == it.seq().take(it.index() as int),
    {
        r.push(c);
    }
    r
}

/// Poskladá reťazec zo znakov.
pub fn retazec(z: &Vec<char>) -> (r: String)
    ensures
        r@ == z@,
{
    let mut r = String::new();
    let mut i: usize = 0;
    while i < z.len()
        invariant
            i <= z.len(),
            r@ == z@.take(i as int),
        decreases z.len() - i,
    {
        pridaj_znak(&mut r, z[i]);
        proof {
            assert(z@.take(i + 1) =~= z@.take(i as int).push(z@[i as int]));
        }
        i = i + 1;
    }
    assert(z@.take(z.len() as int) =~= z@);
    r
}

/// Vytvorí vlastnený reťazec z reťazcového výrezu.
pub fn vlastny(s: &str) -> (r: String)
    ensures
        r@ == s@,
{
    String::from_str(s)
}

/// Spojí dva reťazce.
pub fn spoj(a: &str, b: &str) -> (r: String)
    ensures
        r@ == a@ + b@,
{
    let mut r = String::from_str(a);
    r.append(b);
    r
}

/// Porovná dva reťazce znak po znaku.
pub fn rovnake(a: &str, b: &str) -> (r: bool)
    ensures
        r == (a@ == b@),
{
    let za = znaky(a);
    let zb = znaky(b);
    if za.len() != zb.len() {
        return false;
    }
    let mut i: usize = 0;
    while i < za.len()
        invariant
            za@ == a@,
            zb@ == b@,
            za.len() == zb.len(),
            i <= za.len(),
            forall|j: int| 0 <= j < i ==> za@[j] == zb@[j],
        decreases za.len() - i,
    {
        if za[i] != zb[i] {
            return false;
        }
        i = i + 1;
    }
    assert(za@ =~= zb@);
    true
}

/// Pridá znak na koniec reťazca (`String::push`).
#[verifier::external_body]
pub(crate) fn pridaj_znak(s: &mut String, c: char)
    ensures
        final(s)@ == old(s)@.push(c),
{
    s.push(c)
}

/// Odoberie posledný znak reťazca, ak nejaký je (`String::pop`).
#[verifier::external_body]
pub(crate) fn odober_posledny(s: &mut String) -> (r: Option<char>)
    ensures
        old(s)@.len() == 0 ==> r is None && final(s)@ == old(s)@,
        old(s)@.len() > 0 ==> r == Some(old(s)@.last()) && final(s)@ == old(s)@.drop_last(),
{
    s.pop()
}

// ---------------------------------------------------------------------------
// Desiatkové číslice a čísla

/// Znak desiatkovej číslice `d` (0 až 9).
pub open spec fn cislica(d: int) -> char {
    if d == 0 {
        '0'
    } else if d == 1 {
        '1'
    } else if d == 2 {
        '2'
    } else if d == 3 {
        '3'
    } else if d == 4 {
        '4'
    } else if d == 5 {
        '5'
    } else if d == 6 {
        '6'
    } else if d == 7 {
        '7'
    } else if d == 8 {
        '8'
    } else {
        '9'
    }
}

/// Či je znak ASCII číslica.
pub open spec fn je_cislica(c: char) -> bool {
    '0' <= c && c <= '9'
}

/// Hodnota ASCII číslice.
pub open spec fn hodnota_cislice(c: char) -> int {
    (c as int) - ('0' as int)
}

/// Hodnota postupnosti číslic v desiatkovej sústave.
pub open spec fn hodnota_cislic(s: Seq<char>) -> int
    decreases s.len(),
{
    if s.len() == 0 {
        0
    } else {
        hodnota_cislic(s.drop_last()) * 10 + hodnota_cislice(s.last())
    }
}

/// Či sú všetky znaky číslice.
pub open spec fn same_cislice(s: Seq<char>) -> bool {
    forall|i: int| 0 <= i < s.len() ==> je_cislica(#[trigger] s[i])
}

/// Desiatkový zápis prirodzeného čísla bez úvodných núl.
pub open spec fn dec_nat(n: nat) -> Seq<char>
    decreases n,
{
    if n < 10 {
        seq![cislica(n as int)]
    } else {
        dec_nat(n / 10).push(cislica((n % 10) as int))
    }
}

/// Desiatkový zápis celého čísla tak, ako ho píše `format!("{}", n)`.
pub open spec fn dec_int(n: int) -> Seq<char> {
    if n < 0 {
        seq!['-'] + dec_nat((-n) as nat)
    } else {
        dec_nat(n as nat)
    }
}

/// Celé číslo zapísané v texte podľa pravidiel `str::parse` pre znamienkové typy:
/// voliteľné `+` alebo `-` a aspoň jedna ASCII číslica, nič iné.
pub open spec fn cislo_v_texte(s: Seq<char>) -> Option<int> {
    if s.len() > 0 && s[0] == '-' {
        let d = s.drop_first();
        if d.len() > 0 && same_cislice(d) {
            Some(-hodnota_cislic(d))
        } else {
            None
        }
    } else {
        let d = if s.len() > 0 && s[0] == '+' {
            s.drop_first()
        } else {
            s
        };
        if d.len() > 0 && same_cislice(d) {
            Some(hodnota_cislic(d))
        } else {
            None
        }
    }
}

/// Prirodzené číslo zapísané v texte podľa pravidiel `str::parse` pre bezznamienkové typy:
/// voliteľné `+` a aspoň jedna ASCII číslica.
pub open spec fn nezaporne_cislo_v_texte(s: Seq<char>) -> Option<int> {
    let d = if s.len() > 0 && s[0] == '+' {
        s.drop_first()
    } else {
        s
    };
    if d.len() > 0 && same_cislice(d) {
        Some(hodnota_cislic(d))
    } else {
        None
    }
}

/// Výsledok `str::parse::<i32>()`.
pub open spec fn parse_i32_spec(s: Seq<char>) -> Option<i32> {
    match cislo_v_texte(s) {
        Some(v) => if i32::MIN <= v <= i32::MAX {
            Some(v as i32)
        } else {
            None
        },
        None => None,
    }
}

/// Výsledok `str::parse::<usize>()`.
pub open spec fn parse_usize_spec(s: Seq<char>) -> Option<usize> {
    match nezaporne_cislo_v_texte(s) {
        Some(v) => if v <= usize::MAX {
            Some(v as usize)
        } else {
            None
        },
        None => None,
    }
}

/// Zápis prirodzeného čísla sú samé číslice s hodnotou tohto čísla, bez znamienka na začiatku.
proof fn lemma_dec_nat(n: nat)
    ensures
        dec_nat(n).len() > 0,
        same_cislice(dec_nat(n)),
        hodnota_cislic(dec_nat(n)) == n,
    decreases n,
{
    if n < 10 {
        let d = dec_nat(n);
        assert(d.drop_last() =~= Seq::<char>::empty());
        assert(hodnota_cislic(Seq::<char>::empty()) == 0);
        assert(hodnota_cislic(d) == hodnota_cislic(d.drop_last()) * 10 + hodnota_cislice(d.last()));
        assert(hodnota_cislice(cislica(n as int)) == n) by {
            if n == 0 {} else if n == 1 {} else if n == 2 {} else if n == 3 {} else if n == 4 {}
            else if n == 5 {} else if n == 6 {} else if n == 7 {} else if n == 8 {} else {}
        }
    } else {
        lemma_dec_nat(n / 10);
        let h = dec_nat(n / 10);
        let d = dec_nat(n);
        let m = (n % 10) as int;
        assert(d.drop_last() =~= h);
        assert(hodnota_cislice(cislica(m)) == m) by {
            if m == 0 {} else if m == 1 {} else if m == 2 {} else if m == 3 {} else if m == 4 {}
            else if m == 5 {} else if m == 6 {} else if m == 7 {} else if m == 8 {} else {}
        }
        assert((n / 10) * 10 + n % 10 == n) by (nonlinear_arith);
        assert(hodnota_cislic(d) == hodnota_cislic(h) * 10 + hodnota_cislice(d.last()));
        assert(je_cislica(cislica(m)));
    }
}

/// Celé číslo zapísané do textu (ako `format!("{}", x)`) sa prečíta späť
/// (ako `str::parse::<i32>()`) na to isté číslo.
pub proof fn zakon_cislo_zapis_a_citanie(x: i32)
    ensures
        parse_i32_spec(dec_int(x as int)) == Some(x),
{
    if x < 0 {
        let n = (-(x as int)) as nat;
        lemma_dec_nat(n);
        let t = dec_int(x as int);
        assert(t.drop_first() =~= dec_nat(n));
        assert(t[0] == '-');
    } else {
        let n = x as nat;
        lemma_dec_nat(n);
        let t = dec_nat(n);
        assert(je_cislica(t[0]));
    }
}

fn znak_cislice(d: u64) -> (c: char)
    requires
        d < 10,
    ensures
        c == cislica(d as int),
{
    if d == 0 {
        '0'
    } else if d == 1 {
        '1'
    } else if d == 2 {
        '2'
    } else if d == 3 {
        '3'
    } else if d == 4 {
        '4'
    } else if d == 5 {
        '5'
    } else if d == 6 {
        '6'
    } else if d == 7 {
        '7'
    } else if d == 8 {
        '8'
    } else {
        '9'
    }
}

fn hodnota_znaku(c: char) -> (v: u64)
    requires
        je_cislica(c),
    ensures
        v == hodnota_cislice(c),
        v < 10,
{
    if c == '0' {
        0
    } else if c == '1' {
        1
    } else if c == '2' {
        2
    } else if c == '3' {
        3
    } else if c == '4' {
        4
    } else if c == '5' {
        5
    } else if c == '6' {
        6
    } else if c == '7' {
        7
    } else if c == '8' {
        8
    } else {
        9
    }
}

/// Zápis čísla `n` do znakov (najvýznamnejšia číslica prvá).
pub fn nat_na_znaky(n: u64) -> (r: Vec<char>)
    ensures
        r@ == dec_nat(n as nat),
{
    let mut m: u64 = n;
    // číslice od najmenej významnej
    let mut obratene: Vec<char> = Vec::new();
    while m >= 10
        invariant
            dec_nat(n as nat) == dec_nat(m as nat) + obratene@.reverse(),
        decreases m,
    {
        let c = znak_cislice(m % 10);
        proof {
            assert(dec_nat(m as nat) == dec_nat((m / 10) as nat).push(c));
            assert(obratene@.push(c).reverse() =~= seq![c] + obratene@.reverse());
            assert(dec_nat((m / 10) as nat).push(c) + obratene@.reverse() =~= dec_nat(
                (m / 10) as nat,
            ) + (seq![c] + obratene@.reverse()));
        }
        obratene.push(c);
        m = m / 10;
    }
    let mut r: Vec<char> = Vec::new();
    r.push(znak_cislice(m));
    let mut i: usize = obratene.len();
    while i > 0
        invariant
            i <= obratene.len(),
            r@ + obratene@.subrange(0, i as int).reverse() == dec_nat(n as nat),
        decreases i,
    {
        i = i - 1;
        proof {
            let s = obratene@.subrange(0, i + 1);
            assert(s.reverse() =~= seq![obratene@[i as int]] + obratene@.subrange(
                0,
                i as int,
            ).reverse());
            assert(r@.push(obratene@[i as int]) + obratene@.subrange(0, i as int).reverse()
                =~= r@ + s.reverse());
        }
        r.push(obratene[i]);
    }
    assert(obratene@.subrange(0, 0).reverse() =~= Seq::<char>::empty());
    assert(r@ + Seq::<char>::empty() =~= r@);
    r
}

/// Zápis celého čísla do znakov, ako ho tvorí `format!("{}", n)`.
pub fn cislo_na_znaky(n: i64) -> (r: Vec<char>)
    ensures
        r@ == dec_int(n as int),
{
    if n < 0 {
        let m: u64 = ((-(n + 1)) as u64) + 1;
        let cislice = nat_na_znaky(m);
        let mut r: Vec<char> = Vec::new();
        r.push('-');
        let mut i: usize = 0;
        while i < cislice.len()
            invariant
                i <= cislice.len(),
                r@ == seq!['-'] + cislice@.subrange(0, i as int),
            decreases cislice.len() - i,
        {
            proof {
                assert(seq!['-'] + cislice@.subrange(0, i + 1) =~= (seq!['-']
                    + cislice@.subrange(0, i as int)).push(cislice@[i as int]));
            }
            r.push(cislice[i]);
            i = i + 1;
        }
        assert(cislice@.subrange(0, cislice@.len() as int) =~= cislice@);
        r
    } else {
        nat_na_znaky(n as u64)
    }
}

/// Text celého čísla, ako ho tvorí `format!("{}", n)`.
pub fn cislo_na_text(n: i64) -> (r: String)
    ensures
        r@ == dec_int(n as int),
{
    retazec(&cislo_na_znaky(n))
}

proof fn lemma_hodnota_cislic_rast(s: Seq<char>, k: int)
    requires
        same_cislice(s),
        0 <= k <= s.len(),
    ensures
        0 <= hodnota_cislic(s.subrange(0, k)) <= hodnota_cislic(s),
    decreases s.len() - k,
{
    if k == s.len() {
        assert(s.subrange(0, k) =~= s);
        lemma_hodnota_cislic_nezaporna(s);
    } else {
        lemma_hodnota_cislic_rast(s, k + 1);
        let t = s.subrange(0, k + 1);
        assert(t.drop_last() =~= s.subrange(0, k));
        assert(je_cislica(s[k]));
        lemma_hodnota_cislic_nezaporna(s.subrange(0, k));
    }
}

proof fn lemma_hodnota_cislic_nezaporna(s: Seq<char>)
    requires
        same_cislice(s),
    ensures
        hodnota_cislic(s) >= 0,
    decreases s.len(),
{
    if s.len() > 0 {
        assert(same_cislice(s.drop_last()));
        lemma_hodnota_cislic_nezaporna(s.drop_last());
        assert(je_cislica(s[s.len() - 1]));
    }
}

/// Prečíta číslice `d` ako číslo; `None`, ak by hodnota presiahla `hranica`.
fn citaj_cislice(d: &Vec<char>, hranica: u64) -> (r: Option<u64>)
    requires
        same_cislice(d@),
    ensures
        match r {
            Some(v) => v == hodnota_cislic(d@) && v <= hranica,
            None => hodnota_cislic(d@) > hranica,
        },
{
    let mut acc: u64 = 0;
    let mut i: usize = 0;
    while i < d.len()
        invariant
            same_cislice(d@),
            i <= d.len(),
            acc == hodnota_cislic(d@.subrange(0, i as int)),
            acc <= hranica,
        decreases d.len() - i,
    {
        assert(je_cislica(d@[i as int]));
        let c = hodnota_znaku(d[i]);
        proof {
            assert(d@.subrange(0, i + 1).drop_last() =~= d@.subrange(0, i as int));
        }
        if c > hranica || acc > (hranica - c) / 10 {
            proof {
                assert(acc * 10 + c > hranica) by (nonlinear_arith)
                    requires
                        c > hranica || acc > (hranica - c) / 10,
                        acc >= 0,
                        c >= 0,
                ;
                lemma_hodnota_cislic_rast(d@, i + 1);
            }
            return None;
        }
        assert(acc * 10 + c <= hranica) by (nonlinear_arith)
            requires
                c <= hranica,
                acc <= (hranica - c) / 10,
        ;
        acc = acc * 10 + c;
        i = i + 1;
    }
    assert(d@.subrange(0, d@.len() as int) =~= d@);
    Some(acc)
}

fn vsetky_cislice(d: &Vec<char>) -> (r: bool)
    ensures
        r == same_cislice(d@),
{
    let mut i: usize = 0;
    while i < d.len()
        invariant
            i <= d.len(),
            forall|j: int| 0 <= j < i ==> je_cislica(#[trigger] d@[j]),
        decreases d.len() - i,
    {
        let c = d[i];
        if !('0' <= c && c <= '9') {
            return false;
        }
        i = i + 1;
    }
    true
}

fn bez_prveho(z: &Vec<char>) -> (r: Vec<char>)
    requires
        z.len() > 0,
    ensures
        r@ == z@.drop_first(),
{
    let mut r: Vec<char> = Vec::new();
    let mut i: usize = 1;
    while i < z.len()
        invariant
            1 <= i <= z.len(),
            r@ == z@.subrange(1, i as int),
        decreases z.len() - i,
    {
        proof {
            assert(z@.subrange(1, i + 1) =~= z@.subrange(1, i as int).push(z@[i as int]));
        }
        r.push(z[i]);
        i = i + 1;
    }
    r
}

/// `str::parse::<i32>()`: celé číslo v rozsahu `i32`, inak `None`.
pub fn parse_i32(s: &str) -> (r: Option<i32>)
    ensures
        r == parse_i32_spec(s@),
{
    let z = znaky(s);
    if z.len() > 0 && z[0] == '-' {
        let d = bez_prveho(&z);
        if d.len() == 0 || !vsetky_cislice(&d) {
            return None;
        }
        match citaj_cislice(&d, 0x8000_0000) {
            Some(v) => {
                let x: i64 = -(v as i64);
                Some(x as i32)
            },
            None => None,
        }
    } else {
        let d = if z.len() > 0 && z[0] == '+' {
            bez_prveho(&z)
        } else {
            z
        };
        if d.len() == 0 || !vsetky_cislice(&d) {
            return None;
        }
        match citaj_cislice(&d, 0x7fff_ffff) {
            Some(v) => Some(v as i32),
            None => None,
        }
    }
}

/// `str::parse::<usize>()`: nezáporné číslo v rozsahu `usize`, inak `None`.
pub fn parse_usize(s: &str) -> (r: Option<usize>)
    ensures
        r == parse_usize_spec(s@),
{
    let z = znaky(s);
    let d = if z.len() > 0 && z[0] == '+' {
        bez_prveho(&z)
    } else {
        z
    };
    if d.len() == 0 || !vsetky_cislice(&d) {
        return None;
    }
    match citaj_cislice(&d, usize::MAX as u64) {
        Some(v) => Some(v as usize),
        None => None,
    }
}

// ---------------------------------------------------------------------------
// Hľadanie a malé písmená

/// `ihla` sa vyskytuje v `seno` ako súvislý úsek.
pub open spec fn obsahuje_spec(seno: Seq<char>, ihla: Seq<char>) -> bool {
    exists|i: int| 0 <= i <= seno.len() - ihla.len() && #[trigger] seno.subrange(i, i + ihla.len()) == ihla
}

/// Či sa `ihla` vyskytuje v `seno` ako súvislý úsek (ako `str::contains`).
pub fn obsahuje(seno: &str, ihla: &str) -> (r: bool)
    ensures
        r == obsahuje_spec(seno@, ihla@),
{
    let s = znaky(seno);
    let n = znaky(ihla);
    if n.len() > s.len() {
        return false;
    }
    let mut i: usize = 0;
    while i <= s.len() - n.len()
        invariant
            s@ == seno@,
            n@ == ihla@,
            n.len() <= s.len(),
            i <= s.len() - n.len() + 1,
            forall|a: int| 0 <= a < i ==> #[trigger] s@.subrange(a, a + n@.len()) != n@,
        decreases s.len() - n.len() + 1 - i,
    {
        let mut j: usize = 0;
        while j < n.len() && s[i + j] == n[j]
            invariant
                i <= s.len() - n.len(),
                n.len() <= s.len(),
                j <= n.len(),
                forall|b: int| 0 <= b < j ==> s@[i + b] == n@[b],
            decreases n.len() - j,
        {
            j = j + 1;
        }
        if j == n.len() {
            assert(s@.subrange(i as int, i + n@.len()) =~= n@);
            return true;
        }
        assert(s@.subrange(i as int, i + n@.len())[j as int] != n@[j as int]);
        i = i + 1;
    }
    false
}

/// Text prevedený na malé písmená podľa Unicode (výsledok `str::to_lowercase`).
pub uninterp spec fn male_pismena(s: Seq<char>) -> Seq<char>;

/// Prevedie text na malé písmená (`str::to_lowercase` zo štandardnej knižnice).
#[verifier::external_body]
pub(crate) fn na_male(s: &str) -> (r: String)
    ensures
        r@ == male_pismena(s@),
{
    s.to_lowercase()
}

// ---------------------------------------------------------------------------
// Biele znaky, riadky

/// Biely znak podľa Unicode (vlastnosť White_Space), ako ho chápe `char::is_whitespace`.
pub open spec fn je_biely(c: char) -> bool {
    ||| ('\u{9}' <= c && c <= '\u{d}')
    ||| c == ' '
    ||| c == '\u{85}'
    ||| c == '\u{a0}'
    ||| c == '\u{1680}'
    ||| ('\u{2000}' <= c && c <= '\u{200a}')
    ||| c == '\u{2028}'
    ||| c == '\u{2029}'
    ||| c == '\u{202f}'
    ||| c == '\u{205f}'
    ||| c == '\u{3000}'
}

/// Biely znak podľa Unicode.
pub fn biely(c: char) -> (r: bool)
    ensures
        r == je_biely(c),
{
    ('\u{9}' <= c && c <= '\u{d}') || c == ' ' || c == '\u{85}' || c == '\u{a0}' || c
        == '\u{1680}' || ('\u{2000}' <= c && c <= '\u{200a}') || c == '\u{2028}' || c
        == '\u{2029}' || c == '\u{202f}' || c == '\u{205f}' || c == '\u{3000}'
}

/// Text je po orezaní bielych znakov prázdny (`s.trim().is_empty()`).
pub open spec fn je_prazdny_riadok(s: Seq<char>) -> bool {
    forall|i: int| 0 <= i < s.len() ==> je_biely(#[trigger] s[i])
}

/// Text je po orezaní bielych znakov prázdny.
pub fn prazdny_riadok(z: &Vec<char>) -> (r: bool)
    ensures
        r == je_prazdny_riadok(z@),
{
    let mut i: usize = 0;
    while i < z.len()
        invariant
            i <= z.len(),
            forall|j: int| 0 <= j < i ==> je_biely(#[trigger] z@[j]),
        decreases z.len() - i,
    {
        if !biely(z[i]) {
            return false;
        }
        i = i + 1;
    }
    true
}

/// Index prvého znaku nového riadku, alebo dĺžka textu.
pub open spec fn koniec_riadku(s: Seq<char>) -> nat
    decreases s.len(),
{
    if s.len() == 0 {
        0
    } else if s[0] == '\n' {
        0
    } else {
        1 + koniec_riadku(s.drop_first())
    }
}

/// Riadok bez koncového `\r`.
pub open spec fn bez_cr(s: Seq<char>) -> Seq<char> {
    if s.len() > 0 && s.last() == '\r' {
        s.drop_last()
    } else {
        s
    }
}

/// Riadky textu tak, ako ich číta `BufRead::lines`: oddelené `\n`, riadok ukončený `\n`
/// bez koncového `\r`, za posledným `\n` už žiadny prázdny riadok.
pub open spec fn riadky(s: Seq<char>) -> Seq<Seq<char>>
    decreases s.len(),
{
    if s.len() == 0 {
        Seq::empty()
    } else {
        let k = koniec_riadku(s) as int;
        if k >= s.len() {
            seq![s]
        } else {
            seq![bez_cr(s.take(k))] + riadky(s.skip(k + 1))
        }
    }
}

pub proof fn lemma_koniec_riadku(s: Seq<char>)
    ensures
        koniec_riadku(s) <= s.len(),
        koniec_riadku(s) < s.len() ==> s[koniec_riadku(s) as int] == '\n',
        forall|j: int| 0 <= j < koniec_riadku(s) ==> s[j] != '\n',
    decreases s.len(),
{
    if s.len() > 0 && s[0] != '\n' {
        lemma_koniec_riadku(s.drop_first());
        assert forall|j: int| 0 <= j < koniec_riadku(s) implies s[j] != '\n' by {
            if j > 0 {
                assert(s[j] == s.drop_first()[j - 1]);
            }
        }
    }
}

/// Prvý nový riadok je na indexe `k` (alebo žiadny, ak `k` je dĺžka textu).
pub proof fn lemma_koniec_riadku_presne(s: Seq<char>, k: int)
    requires
        0 <= k <= s.len(),
        k < s.len() ==> s[k] == '\n',
        forall|j: int| 0 <= j < k ==> s[j] != '\n',
    ensures
        koniec_riadku(s) == k,
    decreases s.len(),
{
    if s.len() > 0 && k > 0 {
        lemma_koniec_riadku_presne(s.drop_first(), k - 1);
    }
}

fn bez_cr_vec(z: Vec<char>) -> (r: Vec<char>)
    ensures
        r@ == bez_cr(z@),
{
    let mut z = z;
    if z.len() > 0 && z[z.len() - 1] == '\r' {
        z.pop();
    }
    z
}

/// Riadky textu tak, ako ich číta `BufRead::lines`.
pub fn rozdel_riadky(s: &str) -> (r: Vec<Vec<char>>)
    ensures
        r@.len() == riadky(s@).len(),
        forall|i: int| 0 <= i < r@.len() ==> (#[trigger] r@[i])@ == riadky(s@)[i],
{
    let z = znaky(s);
    let mut r: Vec<Vec<char>> = Vec::new();
    let mut zac: usize = 0;
    let mut aktualny: Vec<char> = Vec::new();
    let mut i: usize = 0;
    assert(z@.skip(0) =~= z@);
    while i < z.len()
        invariant
            z@ == s@,
            zac <= i <= z.len(),
            aktualny@ == z@.subrange(zac as int, i as int),
            forall|j: int| zac <= j < i ==> z@[j] != '\n',
            r@.len() + riadky(z@.skip(zac as int)).len() == riadky(s@).len(),
            forall|j: int| 0 <= j < r@.len() ==> (#[trigger] r@[j])@ == riadky(s@)[j],
            forall|j: int|
                0 <= j < riadky(z@.skip(zac as int)).len() ==> riadky(s@)[r@.len() + j]
                    == #[trigger] riadky(z@.skip(zac as int))[j],
        decreases z.len() - i,
    {
        if z[i] == '\n' {
            let ghost zv = z@.skip(zac as int);
            proof {
                lemma_koniec_riadku_presne(zv, i - zac);
                assert(zv.take(i - zac) =~= aktualny@);
                assert(zv.skip(i - zac + 1) =~= z@.skip(i + 1));
                let nasl = riadky(z@.skip(i + 1));
                assert(riadky(zv) == seq![bez_cr(aktualny@)] + nasl);
                assert forall|j: int| 0 <= j < nasl.len() implies riadky(s@)[r@.len() + 1 + j]
                    == #[trigger] nasl[j] by {
                    assert(riadky(zv)[1 + j] == nasl[j]);
                }
                assert(riadky(zv)[0] == bez_cr(aktualny@));
            }
            let hotovy = bez_cr_vec(aktualny);
            r.push(hotovy);
            aktualny = Vec::new();
            zac = i + 1;
        } else {
            aktualny.push(z[i]);
            proof {
                assert(aktualny@ =~= z@.subrange(zac as int, i + 1));
            }
        }
        i = i + 1;
    }
    if zac < z.len() {
        let ghost zv = z@.skip(zac as int);
        proof {
            lemma_koniec_riadku_presne(zv, zv.len() as int);
            assert(zv =~= aktualny@);
            assert(riadky(zv) == seq![zv]);
            assert(riadky(s@)[r@.len() as int + 0] == riadky(zv)[0]);
        }
        r.push(aktualny);
    } else {
        assert(z@.skip(zac as int) =~= Seq::<char>::empty());
    }
    r
}

/// Riadky spojené znakom nového riadku.
pub open spec fn spoj_riadky(l: Seq<Seq<char>>) -> Seq<char>
    decreases l.len(),
{
    if l.len() == 0 {
        Seq::empty()
    } else if l.len() == 1 {
        l[0]
    } else {
        spoj_riadky(l.drop_last()) + seq!['\n'] + l.last()
    }
}

/// Znak, ktorý orezávanie odstraňuje: biely znak, alebo úvodzovka pri `trim_matches('"')`.
pub open spec fn orezavany(c: char, uvodzovky: bool) -> bool {
    if uvodzovky {
        c == '"'
    } else {
        je_biely(c)
    }
}

/// Text bez orezávaných znakov na začiatku.
pub open spec fn orez_zaciatok(s: Seq<char>, uvodzovky: bool) -> Seq<char>
    decreases s.len(),
{
    if s.len() > 0 && orezavany(s[0], uvodzovky) {
        orez_zaciatok(s.drop_first(), uvodzovky)
    } else {
        s
    }
}

/// Text bez orezávaných znakov na konci.
pub open spec fn orez_koniec(s: Seq<char>, uvodzovky: bool) -> Seq<char>
    decreases s.len(),
{
    if s.len() > 0 && orezavany(s.last(), uvodzovky) {
        orez_koniec(s.drop_last(), uvodzovky)
    } else {
        s
    }
}

/// `str::trim` (bez `uvodzovky`) alebo `str::trim_matches('"')` (s `uvodzovky`).
pub open spec fn orez(s: Seq<char>, uvodzovky: bool) -> Seq<char> {
    orez_koniec(orez_zaciatok(s, uvodzovky), uvodzovky)
}

fn orezavany_znak(c: char, uvodzovky: bool) -> (r: bool)
    ensures
        r == orezavany(c, uvodzovky),
{
    if uvodzovky {
        c == '"'
    } else {
        biely(c)
    }
}

/// Oreže text z oboch strán.
#[verifier::rlimit(30)]
pub fn orezane(z: &Vec<char>, uvodzovky: bool) -> (r: Vec<char>)
    ensures
        r@ == orez(z@, uvodzovky),
{
    let mut a: usize = 0;
    assert(z@.skip(0) =~= z@);
    while a < z.len() && orezavany_znak(z[a], uvodzovky)
        invariant
            a <= z.len(),
            orez_zaciatok(z@, uvodzovky) == orez_zaciatok(z@.skip(a as int), uvodzovky),
        decreases z.len() - a,
    {
        proof {
            assert(z@.skip(a as int).drop_first() =~= z@.skip(a + 1));
        }
        a = a + 1;
    }
    let ghost zac = z@.skip(a as int);
    assert(orez_zaciatok(z@, uvodzovky) == zac);
    let mut b: usize = z.len();
    assert(zac.take(zac.len() as int) =~= zac);
    while b > a && orezavany_znak(z[b - 1], uvodzovky)
        invariant
            a <= b <= z.len(),
            zac == z@.skip(a as int),
            orez_koniec(zac, uvodzovky) == orez_koniec(zac.take(b - a), uvodzovky),
        decreases b,
    {
        proof {
            assert(zac.take(b - a).drop_last() =~= zac.take(b - a - 1));
            assert(zac.take(b - a).last() == z@[b - 1]);
        }
        b = b - 1;
    }
    let mut r: Vec<char> = Vec::new();
    let mut i: usize = a;
    while i < b
        invariant
            a <= i <= b,
            b <= z.len(),
            r@ == z@.subrange(a as int, i as int),
        decreases b - i,
    {
        proof {
            assert(z@.subrange(a as int, i + 1) =~= z@.subrange(a as int, i as int).push(z@[i as int]));
        }
        r.push(z[i]);
        i = i + 1;
    }
    proof {
        assert(r@ =~= zac.take(b - a));
        if b > a {
            assert(zac.take(b - a).last() == z@[b - 1]);
        }
    }
    r
}

} // verus!
