//! Dialógy s používateľom: texty výziev a vyhodnotenie odpovedí.
//! Samotné okná zobrazuje aplikácia.
use vstd::prelude::*;
use vstd::string::StringExecFns;
use crate::text::{
    cislo_na_text, dec_int, nat_na_znaky, orez, orezane, parse_i32, parse_i32_spec, parse_usize,
    parse_usize_spec, retazec, znaky,
};
use crate::typ::{nazov_typu, vsetky_typy, TypPiesne};

verus! {

/// Odpoveď na výzvu „zadaj číslo“ pri ponuke s niekoľkými položkami.
#[derive(Debug, PartialEq, Eq, Structural)]
pub enum Volba {
    /// Nič nezadané (výzva sa zopakuje).
    Prazdna,
    /// Nie je to číslo položky (hlásenie a nová výzva).
    Zla,
    /// Číslo položky, počítané od 1.
    Cislo(usize),
}

/// Vyhodnotenie odpovede: orezaný text; prázdny je `Prazdna`, číslo od 1 po `pocet`
/// je `Cislo`, všetko ostatné `Zla`.
pub open spec fn volba_spec(text: Seq<char>, pocet: nat) -> Volba {
    let t = orez(text, false);
    if t.len() == 0 {
        Volba::Prazdna
    } else {
        match parse_usize_spec(t) {
            Some(n) => if 1 <= n <= pocet {
                Volba::Cislo(n)
            } else {
                Volba::Zla
            },
            None => Volba::Zla,
        }
    }
}

/// Vyhodnotí odpoveď na výber z `pocet` položiek.
pub fn vyhodnot_volbu(text: &str, pocet: usize) -> (r: Volba)
    ensures
        r == volba_spec(text@, pocet as nat),
{
    let z = orezane(&znaky(text), false);
    if z.len() == 0 {
        return Volba::Prazdna;
    }
    let t = retazec(&z);
    match parse_usize(t.as_str()) {
        Some(n) => {
            if 1 <= n && n <= pocet {
                Volba::Cislo(n)
            } else {
                Volba::Zla
            }
        },
        None => Volba::Zla,
    }
}

/// Vyhodnotí zadané číslo pesničky: orezaný text ako celé číslo, inak nič.
pub fn vyhodnot_id(text: &str) -> (r: Option<i32>)
    ensures
        r == parse_i32_spec(orez(text@, false)),
{
    let z = orezane(&znaky(text), false);
    let t = retazec(&z);
    parse_i32(t.as_str())
}

/// Odpoveď na výber typu pesničky.
#[derive(Debug, PartialEq, Eq, Structural)]
pub enum VolbaTypu {
    /// Nič nezadané.
    Prazdna,
    /// Zlé číslo typu.
    Zla,
    /// Zvolený typ.
    Typ(TypPiesne),
}

/// Typ zvolený odpoveďou: číslo `n` vyberá `n`-tý typ zo zoznamu všetkých typov.
pub open spec fn volba_typu_spec(text: Seq<char>) -> VolbaTypu {
    match volba_spec(text, vsetky_typy().len()) {
        Volba::Prazdna => VolbaTypu::Prazdna,
        Volba::Zla => VolbaTypu::Zla,
        Volba::Cislo(n) => VolbaTypu::Typ(vsetky_typy()[n - 1]),
    }
}

/// Vyhodnotí odpoveď na výber typu pesničky.
pub fn vyhodnot_typ(text: &str) -> (r: VolbaTypu)
    ensures
        r == volba_typu_spec(text@),
{
    let vsetky = TypPiesne::all();
    match vyhodnot_volbu(text, vsetky.len()) {
        Volba::Prazdna => VolbaTypu::Prazdna,
        Volba::Zla => VolbaTypu::Zla,
        Volba::Cislo(n) => VolbaTypu::Typ(vsetky[n - 1]),
    }
}

/// Riadky ponuky typov: „číslo: názov“, číslované od 1.
pub open spec fn riadky_typov(t: Seq<TypPiesne>) -> Seq<char>
    decreases t.len(),
{
    if t.len() == 0 {
        Seq::empty()
    } else {
        riadky_typov(t.drop_last()) + dec_int(t.len() as int) + ": "@ + nazov_typu(t.last())
            + "\n"@
    }
}

/// Text výzvy na výber typu pesničky.
pub open spec fn vyzva_typu_spec() -> Seq<char> {
    "Vyber typ piesne (zadaj číslo):\n\n"@ + riadky_typov(vsetky_typy())
}

/// Text výzvy na výber typu pesničky.
pub fn vyzva_typu() -> (r: String)
    ensures
        r@ == vyzva_typu_spec(),
{
    let vsetky = TypPiesne::all();
    let mut r = String::from_str("Vyber typ piesne (zadaj číslo):\n\n");
    let mut i: usize = 0;
    assert(vsetky@.take(0) =~= Seq::<TypPiesne>::empty());
    while i < vsetky.len()
        invariant
            vsetky@ == vsetky_typy(),
            i <= vsetky.len(),
            r@ == "Vyber typ piesne (zadaj číslo):\n\n"@ + riadky_typov(vsetky@.take(i as int)),
        decreases vsetky.len() - i,
    {
        let cislo = cislo_na_text((i + 1) as i64);
        r.append(cislo.as_str());
        r.append(": ");
        r.append(vsetky[i].nazov());
        r.append("\n");
        proof {
            let t = vsetky@.take(i + 1);
            assert(t.drop_last() =~= vsetky@.take(i as int));
            assert(t.last() == vsetky@[i as int]);
        }
        i = i + 1;
    }
    assert(vsetky@.take(vsetky.len() as int) =~= vsetky@);
    r
}

/// Údaje o monitore, ktoré sa ukazujú pri výbere.
pub struct InfoMonitora {
    pub nazov: Option<String>,
    pub x: i32,
    pub y: i32,
    pub sirka: u32,
    pub vyska: u32,
}

/// Názov monitora v ponuke.
pub open spec fn nazov_monitora(m: InfoMonitora) -> Seq<char> {
    match m.nazov {
        Some(n) => n@,
        None => "<bez názvu>"@,
    }
}

/// Záznam monitora v ponuke; monitor napravo od počiatku je označený ako externý.
pub open spec fn zaznam_monitora(i: int, m: InfoMonitora) -> Seq<char> {
    dec_int(i) + ": "@ + nazov_monitora(m) + (if m.x > 0 {
        " (externý)"@
    } else {
        Seq::empty()
    }) + "\n   rozlíšenie: "@ + dec_int(m.sirka as int) + " × "@ + dec_int(m.vyska as int)
        + "\n   pozícia: x="@ + dec_int(m.x as int) + ", y="@ + dec_int(m.y as int) + "\n\n"@
}

/// Záznamy monitorov v ponuke, číslované od 1.
pub open spec fn zaznamy_monitorov(s: Seq<InfoMonitora>) -> Seq<char>
    decreases s.len(),
{
    if s.len() == 0 {
        Seq::empty()
    } else {
        zaznamy_monitorov(s.drop_last()) + zaznam_monitora(s.len() as int, s.last())
    }
}

/// Text výzvy na výber monitora.
pub open spec fn vyzva_monitora_spec(s: Seq<InfoMonitora>) -> Seq<char> {
    "Vyber monitor (zadaj číslo):\n\n"@ + zaznamy_monitorov(s)
}

fn pridaj_zaznam(r: &mut String, i: usize, m: &InfoMonitora)
    ensures
        final(r)@ == old(r)@ + zaznam_monitora(i as int, *m),
{
    let mut z = retazec(&nat_na_znaky(i as u64));
    z.append(": ");
    match &m.nazov {
        Some(n) => z.append(n.as_str()),
        None => z.append("<bez názvu>"),
    }
    if m.x > 0 {
        z.append(" (externý)");
    }
    let ghost hlavicka = z@;
    z.append("\n   rozlíšenie: ");
    z.append(cislo_na_text(m.sirka as i64).as_str());
    z.append(" × ");
    z.append(cislo_na_text(m.vyska as i64).as_str());
    let ghost po_rozliseni = z@;
    z.append("\n   pozícia: x=");
    z.append(cislo_na_text(m.x as i64).as_str());
    z.append(", y=");
    z.append(cislo_na_text(m.y as i64).as_str());
    z.append("\n\n");
    proof {
        let tag: Seq<char> = if m.x > 0 {
            " (externý)"@
        } else {
            Seq::empty()
        };
        assert(hlavicka =~= dec_int(i as int) + ": "@ + nazov_monitora(*m) + tag);
        assert(po_rozliseni =~= hlavicka + "\n   rozlíšenie: "@ + dec_int(m.sirka as int) + " × "@
            + dec_int(m.vyska as int));
        assert(z@ =~= zaznam_monitora(i as int, *m));
    }
    r.append(z.as_str());
}

/// Text výzvy na výber monitora.
pub fn vyzva_monitora(monitory: &Vec<InfoMonitora>) -> (r: String)
    ensures
        r@ == vyzva_monitora_spec(monitory@),
{
    let mut r = String::from_str("Vyber monitor (zadaj číslo):\n\n");
    let mut i: usize = 0;
    assert(monitory@.take(0) =~= Seq::<InfoMonitora>::empty());
    while i < monitory.len()
        invariant
            i <= monitory.len(),
            r@ == "Vyber monitor (zadaj číslo):\n\n"@ + zaznamy_monitorov(monitory@.take(i as int)),
        decreases monitory.len() - i,
    {
        pridaj_zaznam(&mut r, i + 1, &monitory[i]);
        proof {
            let t = monitory@.take(i + 1);
            assert(t.drop_last() =~= monitory@.take(i as int));
            assert(t.last() == monitory@[i as int]);
        }
        i = i + 1;
    }
    assert(monitory@.take(monitory.len() as int) =~= monitory@);
    r
}

} // verus!
