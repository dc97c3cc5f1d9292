//! Jednorazový import piesní z CSV súboru `id,cislo_strofy,typ,text`:
//! rozbor riadkov a zoskupenie strof do piesní. Súbor a zápis do databázy
//! obsluhuje aplikácia.
use vstd::prelude::*;
use crate::db::{dalsie_cislo, strofy_cisla, strofy_s_id};
use crate::library_jks::{obsah_piesni, obsah_strof, PiesenV, SongJks, StrofaJKS, StrofaV};
use crate::zoradenie::{stabilne_zoradene, zorad, Kluc};
use crate::text::{orez, orezane, parse_i32, parse_i32_spec, retazec, znaky};
use crate::typ::{typ_z_nazvu, TypPiesne};

verus! {

/// Stav rozdeľovania riadku na stĺpce.
pub ghost struct StavCsv {
    pub casti: Seq<Seq<char>>,
    pub aktualna: Seq<char>,
    pub v_uvodzovkach: bool,
}

/// Jeden znak riadku: úvodzovka prepína text v úvodzovkách (a ostáva v texte),
/// čiarka mimo úvodzoviek ukončí stĺpec (orezaný o biele znaky).
pub open spec fn krok_csv(st: StavCsv, c: char) -> StavCsv {
    if c == '"' {
        StavCsv { casti: st.casti, aktualna: st.aktualna.push(c), v_uvodzovkach: !st.v_uvodzovkach }
    } else if c == ',' && !st.v_uvodzovkach {
        StavCsv {
            casti: st.casti.push(orez(st.aktualna, false)),
            aktualna: Seq::empty(),
            v_uvodzovkach: st.v_uvodzovkach,
        }
    } else {
        StavCsv { casti: st.casti, aktualna: st.aktualna.push(c), v_uvodzovkach: st.v_uvodzovkach }
    }
}

/// Stav po prečítaní znakov.
pub open spec fn stav_csv(s: Seq<char>) -> StavCsv
    decreases s.len(),
{
    if s.len() == 0 {
        StavCsv { casti: Seq::empty(), aktualna: Seq::empty(), v_uvodzovkach: false }
    } else {
        krok_csv(stav_csv(s.drop_last()), s.last())
    }
}

/// Stĺpce riadku (posledný, ak je neprázdny).
pub open spec fn stlpce(s: Seq<char>) -> Seq<Seq<char>> {
    let st = stav_csv(s);
    if st.aktualna.len() > 0 {
        st.casti.push(orez(st.aktualna, false))
    } else {
        st.casti
    }
}

/// Text je `none` bez ohľadu na veľkosť ASCII písmen.
pub open spec fn je_none(s: Seq<char>) -> bool {
    &&& s.len() == 4
    &&& (s[0] == 'n' || s[0] == 'N')
    &&& (s[1] == 'o' || s[1] == 'O')
    &&& (s[2] == 'n' || s[2] == 'N')
    &&& (s[3] == 'e' || s[3] == 'E')
}

/// Každá dvojica znakov `\` `n` sa nahradí novým riadkom.
pub open spec fn nahrad_nove_riadky(s: Seq<char>) -> Seq<char>
    decreases s.len(),
{
    if s.len() == 0 {
        s
    } else if s.len() >= 2 && s[0] == '\\' && s[1] == 'n' {
        seq!['\n'] + nahrad_nove_riadky(s.skip(2))
    } else {
        seq![s[0]] + nahrad_nove_riadky(s.drop_first())
    }
}

/// Na pozícii `j` textu `r` stojí dvojica znakov `\` `n`.
pub open spec fn lomitko_n_na(r: Seq<char>, j: int) -> bool {
    0 <= j && j + 1 < r.len() && r[j] == '\\' && r[j + 1] == 'n'
}

/// Prvý znak po nahradení: nový riadok, ak text začína dvojicou `\` `n`, inak prvý znak textu.
proof fn lemma_prvy_znak_nahrady(t: Seq<char>)
    requires
        t.len() > 0,
    ensures
        nahrad_nove_riadky(t).len() > 0,
        nahrad_nove_riadky(t)[0] == if lomitko_n_na(t, 0) {
            '\n'
        } else {
            t[0]
        },
{
}

/// Po nahradení v texte neostane žiadna dvojica `\` `n`: každá sa zmenila na nový riadok.
pub proof fn zakon_bez_lomitka_n(s: Seq<char>)
    ensures
        forall|j: int| !#[trigger] lomitko_n_na(nahrad_nove_riadky(s), j),
    decreases s.len(),
{
    let r = nahrad_nove_riadky(s);
    if s.len() == 0 {
    } else if s.len() >= 2 && s[0] == '\\' && s[1] == 'n' {
        let t = s.skip(2);
        zakon_bez_lomitka_n(t);
        assert(r == seq!['\n'] + nahrad_nove_riadky(t));
        assert forall|j: int| !#[trigger] lomitko_n_na(r, j) by {
            if 1 <= j && j + 1 < r.len() {
                assert(r[j] == nahrad_nove_riadky(t)[j - 1]);
                assert(r[j + 1] == nahrad_nove_riadky(t)[j]);
                assert(!lomitko_n_na(nahrad_nove_riadky(t), j - 1));
            }
        }
    } else {
        let t = s.drop_first();
        zakon_bez_lomitka_n(t);
        assert(r == seq![s[0]] + nahrad_nove_riadky(t));
        assert forall|j: int| !#[trigger] lomitko_n_na(r, j) by {
            if j == 0 && 1 < r.len() {
                lemma_prvy_znak_nahrady(t);
                assert(r[1] == nahrad_nove_riadky(t)[0]);
                if s.len() >= 2 {
                    assert(t[0] == s[1]);
                }
            } else if 1 <= j && j + 1 < r.len() {
                assert(r[j] == nahrad_nove_riadky(t)[j - 1]);
                assert(r[j + 1] == nahrad_nove_riadky(t)[j]);
                assert(!lomitko_n_na(nahrad_nove_riadky(t), j - 1));
            }
        }
    }
}

/// Text bez spätnej lomky ostane nahradením nezmenený.
pub proof fn zakon_bez_lomky_nezmeneny(s: Seq<char>)
    requires
        !s.contains('\\'),
    ensures
        nahrad_nove_riadky(s) == s,
    decreases s.len(),
{
    if s.len() > 0 {
        let t = s.drop_first();
        assert(s[0] != '\\');
        assert forall|c: char| t.contains(c) implies s.contains(c) by {
            let k = choose|k: int| 0 <= k < t.len() && t[k] == c;
            assert(s[k + 1] == c);
        }
        zakon_bez_lomky_nezmeneny(t);
        assert(seq![s[0]] + t =~= s);
    }
}

/// Nahradenie sa dá robiť po častiach: text rozdelený kdekoľvek, len nie hneď za
/// spätnou lomkou, dá po nahradení oboch častí to isté ako celý.
pub proof fn zakon_nahrad_po_castiach(a: Seq<char>, b: Seq<char>)
    requires
        a.len() == 0 || a.last() != '\\',
    ensures
        nahrad_nove_riadky(a + b) == nahrad_nove_riadky(a) + nahrad_nove_riadky(b),
    decreases a.len(),
{
    if a.len() == 0 {
        assert(a + b =~= b);
        assert(nahrad_nove_riadky(a) + nahrad_nove_riadky(b) =~= nahrad_nove_riadky(b));
    } else if a.len() == 1 {
        let ab = a + b;
        assert(ab[0] == a[0]);
        assert(ab.drop_first() =~= b);
        assert(a.drop_first() =~= Seq::<char>::empty());
        assert(nahrad_nove_riadky(Seq::<char>::empty()) == Seq::<char>::empty());
        assert(nahrad_nove_riadky(a) == seq![a[0]] + nahrad_nove_riadky(a.drop_first()));
        assert(nahrad_nove_riadky(a) =~= seq![a[0]]);
        assert(nahrad_nove_riadky(ab) =~= seq![a[0]] + nahrad_nove_riadky(b));
    } else if a[0] == '\\' && a[1] == 'n' {
        let ab = a + b;
        let t = a.skip(2);
        assert(ab[0] == a[0] && ab[1] == a[1]);
        assert(ab.skip(2) =~= t + b);
        if t.len() > 0 {
            assert(t.last() == a.last());
        }
        zakon_nahrad_po_castiach(t, b);
        assert(nahrad_nove_riadky(ab) =~= nahrad_nove_riadky(a) + nahrad_nove_riadky(b));
    } else {
        let ab = a + b;
        let t = a.drop_first();
        assert(ab[0] == a[0] && ab[1] == a[1]);
        assert(ab.drop_first() =~= t + b);
        assert(t.last() == a.last());
        zakon_nahrad_po_castiach(t, b);
        assert(nahrad_nove_riadky(ab) =~= nahrad_nove_riadky(a) + nahrad_nove_riadky(b));
    }
}

/// Text strofy prečítaný zo stĺpca CSV neobsahuje dvojicu `\` `n`.
pub proof fn zakon_text_stlpca_bez_lomitka_n(stlpec: Seq<char>)
    ensures
        forall|j: int| !#[trigger] lomitko_n_na(text_zo_stlpca(stlpec), j),
{
    zakon_bez_lomitka_n(orez(orez(stlpec, false), true));
}

/// Text typu v stĺpci (bez bielych znakov a úvodzoviek na okrajoch).
pub open spec fn text_typu(stlpec: Seq<char>) -> Seq<char> {
    orez(orez(stlpec, false), true)
}

/// Typ strofy podľa stĺpca: `none` je bez typu, neznámy názov tiež.
pub open spec fn typ_zo_stlpca(stlpec: Seq<char>) -> Option<TypPiesne> {
    if je_none(text_typu(stlpec)) {
        None
    } else {
        typ_z_nazvu(text_typu(stlpec))
    }
}

/// Text strofy zo stĺpca.
pub open spec fn text_zo_stlpca(stlpec: Seq<char>) -> Seq<char> {
    nahrad_nove_riadky(orez(orez(stlpec, false), true))
}

/// Výsledok rozboru jedného riadku CSV.
#[derive(Debug)]
pub enum RiadokCsv {
    /// Prázdny riadok (preskočí sa).
    Prazdny,
    /// Menej ako štyri stĺpce (stĺpce pre hlásenie).
    MaloStlpcov(Vec<String>),
    /// Číslo piesne sa nedá prečítať (text stĺpca).
    ZleId(String),
    /// Číslo strofy sa nedá prečítať (text stĺpca).
    ZleCisloStrofy(String),
    /// Strofa; `neznamy_typ` je text typu, ktorý nie je `none` ani známy typ.
    Strofa { strofa: StrofaJKS, neznamy_typ: Option<String> },
}

fn rozdel_stlpce(z: &Vec<char>) -> (r: Vec<Vec<char>>)
    ensures
        r@.len() == stlpce(z@).len(),
        forall|i: int| 0 <= i < r@.len() ==> (#[trigger] r@[i])@ == stlpce(z@)[i],
{
    let mut casti: Vec<Vec<char>> = Vec::new();
    let mut aktualna: Vec<char> = Vec::new();
    let mut v_uvodzovkach = false;
    let mut i: usize = 0;
    assert(z@.take(0) =~= Seq::<char>::empty());
    while i < z.len()
        invariant
            i <= z.len(),
            casti@.len() == stav_csv(z@.take(i as int)).casti.len(),
            forall|j: int| 0 <= j < casti@.len() ==> (#[trigger] casti@[j])@ == stav_csv(z@.take(i as int)).casti[j],
            aktualna@ == stav_csv(z@.take(i as int)).aktualna,
            v_uvodzovkach == stav_csv(z@.take(i as int)).v_uvodzovkach,
        decreases z.len() - i,
    {
        let c = z[i];
        proof {
            assert(z@.take(i + 1).drop_last() =~= z@.take(i as int));
            assert(z@.take(i + 1).last() == c);
        }
        if c == '"' {
            v_uvodzovkach = !v_uvodzovkach;
            aktualna.push(c);
        } else if c == ',' && !v_uvodzovkach {
            let hotova = orezane(&aktualna, false);
            casti.push(hotova);
            aktualna = Vec::new();
            assert(aktualna@ =~= Seq::<char>::empty());
        } else {
            aktualna.push(c);
        }
        i = i + 1;
    }
    assert(z@.take(z.len() as int) =~= z@);
    if aktualna.len() > 0 {
        let hotova = orezane(&aktualna, false);
        casti.push(hotova);
    }
    casti
}

fn nahrad(z: &Vec<char>) -> (r: Vec<char>)
    ensures
        r@ == nahrad_nove_riadky(z@),
{
    let mut r: Vec<char> = Vec::new();
    let mut i: usize = 0;
    assert(z@.skip(0) =~= z@);
    assert(Seq::<char>::empty() + nahrad_nove_riadky(z@) =~= nahrad_nove_riadky(z@));
    while i < z.len()
        invariant
            i <= z.len(),
            r@ + nahrad_nove_riadky(z@.skip(i as int)) == nahrad_nove_riadky(z@),
        decreases z.len() - i,
    {
        let ghost zv = z@.skip(i as int);
        if i + 1 < z.len() && z[i] == '\\' && z[i + 1] == 'n' {
            proof {
                assert(zv.skip(2) =~= z@.skip(i + 2));
                assert(r@.push('\n') + nahrad_nove_riadky(z@.skip(i + 2)) =~= r@ + (seq!['\n']
                    + nahrad_nove_riadky(zv.skip(2))));
            }
            r.push('\n');
            i = i + 2;
        } else {
            proof {
                assert(zv.drop_first() =~= z@.skip(i + 1));
                assert(r@.push(z@[i as int]) + nahrad_nove_riadky(z@.skip(i + 1)) =~= r@ + (seq![
                    zv[0],
                ] + nahrad_nove_riadky(zv.drop_first())));
            }
            r.push(z[i]);
            i = i + 1;
        }
    }
    assert(z@.skip(i as int) =~= Seq::<char>::empty());
    assert(r@ + Seq::<char>::empty() =~= r@);
    r
}

fn none(z: &Vec<char>) -> (r: bool)
    ensures
        r == je_none(z@),
{
    z.len() == 4 && (z[0] == 'n' || z[0] == 'N') && (z[1] == 'o' || z[1] == 'O') && (z[2] == 'n'
        || z[2] == 'N') && (z[3] == 'e' || z[3] == 'E')
}

/// Rozoberie riadok CSV `id,cislo_strofy,typ,text`.
pub fn parsuj_riadok(riadok: &str) -> (r: RiadokCsv)
    ensures
        ({
            let line = orez(riadok@, false);
            let p = stlpce(line);
            if line.len() == 0 {
                r is Prazdny
            } else if p.len() < 4 {
                r matches RiadokCsv::MaloStlpcov(v) && v@.len() == p.len() && forall|i: int|
                    0 <= i < p.len() ==> (#[trigger] v@[i])@ == p[i]
            } else {
                match parse_i32_spec(p[0]) {
                    None => r matches RiadokCsv::ZleId(s) && s@ == p[0],
                    Some(id) => match parse_i32_spec(p[1]) {
                        None => r matches RiadokCsv::ZleCisloStrofy(s) && s@ == p[1],
                        Some(cislo) => r matches RiadokCsv::Strofa { strofa, neznamy_typ } && strofa@
                            == (StrofaV {
                            id,
                            cislo_strofy: cislo,
                            typ_piesne: typ_zo_stlpca(p[2]),
                            text: text_zo_stlpca(p[3]),
                        }) && (if !je_none(text_typu(p[2])) && typ_z_nazvu(text_typu(p[2]))
                            is None {
                            neznamy_typ matches Some(t) && t@ == text_typu(p[2])
                        } else {
                            neznamy_typ is None
                        }),
                    },
                }
            }
        }),
{
    let z = znaky(riadok);
    let line = orezane(&z, false);
    if line.len() == 0 {
        return RiadokCsv::Prazdny;
    }
    let casti = rozdel_stlpce(&line);
    if casti.len() < 4 {
        let mut v: Vec<String> = Vec::new();
        let mut i: usize = 0;
        while i < casti.len()
            invariant
                i <= casti.len(),
                v@.len() == i,
                forall|j: int| 0 <= j < i ==> (#[trigger] v@[j])@ == casti@[j]@,
            decreases casti.len() - i,
        {
            v.push(retazec(&casti[i]));
            i = i + 1;
        }
        return RiadokCsv::MaloStlpcov(v);
    }
    let s0 = retazec(&casti[0]);
    let id = match parse_i32(s0.as_str()) {
        Some(v) => v,
        None => return RiadokCsv::ZleId(s0),
    };
    let s1 = retazec(&casti[1]);
    let cislo_strofy = match parse_i32(s1.as_str()) {
        Some(v) => v,
        None => return RiadokCsv::ZleCisloStrofy(s1),
    };
    let typ_raw = orezane(&orezane(&casti[2], false), true);
    let typ_text = retazec(&typ_raw);
    let (typ_piesne, neznamy_typ) = if none(&typ_raw) {
        (None, None)
    } else {
        match TypPiesne::from_str_db(typ_text.as_str()) {
            Some(t) => (Some(t), None),
            None => (None, Some(typ_text)),
        }
    };
    let text = nahrad(&orezane(&orezane(&casti[3], false), true));
    RiadokCsv::Strofa {
        strofa: StrofaJKS { id, cislo_strofy, typ_piesne, text: retazec(&text) },
        neznamy_typ,
    }
}


/// Strofy sa v rámci pesničky radia podľa čísla strofy.
impl Kluc for StrofaJKS {
    open spec fn kluc(v: StrofaV) -> i32 {
        v.cislo_strofy
    }

    fn daj_kluc(&self) -> (r: i32) {
        self.cislo_strofy
    }
}

/// Typ pesničky pri importe: typ prvej strofy (v poradí súboru), ktorá nejaký typ má;
/// ak žiadna, Hymna.
pub open spec fn prvy_typ(s: Seq<StrofaV>) -> TypPiesne
    decreases s.len(),
{
    if s.len() == 0 {
        TypPiesne::Hymna
    } else {
        match s[0].typ_piesne {
            Some(t) => t,
            None => prvy_typ(s.drop_first()),
        }
    }
}

/// Pesničky poskladané z importovaných strof: pre každé číslo pesničky, ktoré sa
/// v strofách vyskytuje, vzostupne jedna pesnička; jej strofy sú strofy s týmto číslom
/// stabilne zoradené podľa čísla strofy, počet strof je ich počet mínus jedna a typ
/// je typ prvej strofy, ktorá ho má.
pub open spec fn piesne_importu(p: Seq<PiesenV>, s: Seq<StrofaV>) -> bool {
    &&& forall|i: int, j: int| 0 <= i < j < p.len() ==> (#[trigger] p[i]).id < (#[trigger] p[j]).id
    &&& forall|t: int|
        0 <= t < s.len() ==> exists|i: int| 0 <= i < p.len() && (#[trigger] p[i]).id == (#[trigger] s[t]).id
    &&& forall|i: int|
        0 <= i < p.len() ==> {
            &&& stabilne_zoradene::<StrofaJKS>((#[trigger] p[i]).strofy, strofy_s_id(s, p[i].id))
            &&& p[i].strofy.len() > 0
            &&& p[i].pocet_strof == ((p[i].strofy.len() - 1) as usize) as i32
            &&& p[i].typ_pesnicky == prvy_typ(strofy_s_id(s, p[i].id))
        }
}

fn prvy_typ_strof(s: &Vec<StrofaJKS>) -> (t: TypPiesne)
    ensures
        t == prvy_typ(obsah_strof(s@)),
{
    let ghost o = obsah_strof(s@);
    let mut i: usize = 0;
    assert(o.skip(0) =~= o);
    while i < s.len()
        invariant
            o == obsah_strof(s@),
            i <= s.len(),
            prvy_typ(o) == prvy_typ(o.skip(i as int)),
        decreases s.len() - i,
    {
        proof {
            assert(o.skip(i as int)[0] == o[i as int]);
            assert(o.skip(i as int).drop_first() =~= o.skip(i + 1));
        }
        match s[i].typ_piesne {
            Some(t) => return t,
            None => {},
        }
        i = i + 1;
    }
    assert(o.skip(i as int) =~= Seq::<StrofaV>::empty());
    TypPiesne::Hymna
}

/// Zoskupí importované strofy do pesničiek (vzostupne podľa čísla pesničky).
pub fn zoskup_import(strofy: Vec<StrofaJKS>) -> (r: Vec<SongJks>)
    ensures
        piesne_importu(obsah_piesni(r@), obsah_strof(strofy@)),
{
    let ghost o = obsah_strof(strofy@);
    let mut r: Vec<SongJks> = Vec::new();
    let mut posledne: Option<i32> = None;
    loop
        invariant
            o == obsah_strof(strofy@),
            forall|a: int, b: int|
                0 <= a < b < obsah_piesni(r@).len() ==> (#[trigger] obsah_piesni(r@)[a]).id
                    < (#[trigger] obsah_piesni(r@)[b]).id,
            r@.len() == 0 <==> posledne is None,
            posledne matches Some(p) ==> obsah_piesni(r@)[r@.len() - 1].id == p,
            forall|t: int|
                0 <= t < o.len() && (posledne matches Some(p) && (#[trigger] o[t]).id <= p)
                    ==> exists|a: int| 0 <= a < r@.len() && (#[trigger] obsah_piesni(r@)[a]).id == o[t].id,
            forall|a: int|
                0 <= a < r@.len() ==> {
                    &&& stabilne_zoradene::<StrofaJKS>((#[trigger] obsah_piesni(r@)[a]).strofy, strofy_s_id(o, obsah_piesni(r@)[a].id))
                    &&& obsah_piesni(r@)[a].strofy.len() > 0
                    &&& obsah_piesni(r@)[a].pocet_strof == ((obsah_piesni(r@)[a].strofy.len() - 1) as usize) as i32
                    &&& obsah_piesni(r@)[a].typ_pesnicky == prvy_typ(strofy_s_id(o, obsah_piesni(r@)[a].id))
                },
        decreases (match posledne {
            Some(p) => i32::MAX - p,
            None => i32::MAX - i32::MIN + 1,
        }),
    {
        let k = match dalsie_cislo(&strofy, posledne) {
            Some(k) => k,
            None => {
                proof {
                    let p = obsah_piesni(r@);
                    assert forall|t: int| 0 <= t < o.len() implies exists|a: int|
                        0 <= a < p.len() && (#[trigger] p[a]).id == (#[trigger] o[t]).id by {
                        assert(obsah_strof(strofy@)[t] == strofy@[t]@);
                    }
                    assert(piesne_importu(p, o));
                }
                return r;
            },
        };
        let mut skupina = strofy_cisla(&strofy, k);
        proof {
            let t = choose|t: int| 0 <= t < strofy@.len() && (#[trigger] strofy@[t]).id == k;
            assert(o[t].id == k);
            o.lemma_filter_contains(|x: StrofaV| x.id == k, t);
        }
        let typ = prvy_typ_strof(&skupina);
        let ghost pred_zoradenim = obsah_strof(skupina@);
        zorad(&mut skupina);
        let pocet = #[verifier::truncate] ((skupina.len() - 1) as i32);
        let ghost stare = obsah_piesni(r@);
        let piesen = SongJks::new(k, pocet, skupina, typ);
        proof {
            assert(stare.len() > 0 ==> stare[stare.len() - 1].id < k);
        }
        r.push(piesen);
        proof {
            let n = obsah_piesni(r@);
            assert(n =~= stare.push(piesen@));
            assert forall|t: int|
                0 <= t < o.len() && (#[trigger] o[t]).id <= k implies exists|a: int|
                    0 <= a < r@.len() && (#[trigger] n[a]).id == o[t].id by {
                assert(obsah_strof(strofy@)[t] == strofy@[t]@);
                if o[t].id == k {
                    assert(n[n.len() - 1].id == k);
                } else {
                    let a = choose|a: int| 0 <= a < stare.len() && (#[trigger] stare[a]).id == o[t].id;
                    assert(n[a] == stare[a]);
                }
            }
        }
        let ghost predtym = posledne;
        posledne = Some(k);
        proof {
            match predtym {
                Some(p) => assert(k > p),
                None => {},
            }
        }
    }
}

} // verus!
