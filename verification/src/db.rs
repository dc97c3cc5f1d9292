//! Čo sa z pesničky zapíše do databázy a ako sa z riadkov databázy poskladajú pesničky.
//! Samotné spojenie s databázou a dotazy obsluhuje aplikácia.
use vstd::prelude::*;
use crate::library_jks::{obsah_strof, PiesenV, SongJks, SongManager, StrofaJKS, StrofaV};
use crate::model::{strofa_z_riadku, JksStrofaDB};
use crate::typ::{nazov_typu, zakon_nazov_a_spat, TypPiesne};

verus! {

/// Riadky, ktoré vloží uloženie pesničky: každá strofa v poradí; prvá strofa nesie typ
/// pesničky, ostatné sú bez typu.
pub open spec fn riadky_piesne(r: Seq<JksStrofaDB>, p: PiesenV) -> bool {
    &&& r.len() == p.strofy.len()
    &&& forall|i: int|
        0 <= i < r.len() ==> {
            &&& (#[trigger] r[i]).row_id is None
            &&& r[i].id == p.strofy[i].id
            &&& r[i].cislo_stofy == p.strofy[i].cislo_strofy
            &&& r[i].text@ == p.strofy[i].text
            &&& if i == 0 {
                r[i].typ_piesne matches Some(x) && x@ == nazov_typu(p.typ_pesnicky)
            } else {
                r[i].typ_piesne is None
            }
        }
}

/// Riadky tabuľky `jks`, ktoré sa pri uložení pesničky vložia (v tomto poradí).
pub fn db_insert_song(song: &SongJks) -> (r: Vec<JksStrofaDB>)
    ensures
        riadky_piesne(r@, song@),
{
    let mut r: Vec<JksStrofaDB> = Vec::new();
    let mut idx: usize = 0;
    while idx < song.strofy.len()
        invariant
            idx <= song.strofy.len(),
            r@.len() == idx,
            forall|i: int|
                0 <= i < idx ==> {
                    &&& (#[trigger] r@[i]).row_id is None
                    &&& r@[i].id == song@.strofy[i].id
                    &&& r@[i].cislo_stofy == song@.strofy[i].cislo_strofy
                    &&& r@[i].text@ == song@.strofy[i].text
                    &&& if i == 0 {
                        r@[i].typ_piesne matches Some(x) && x@ == nazov_typu(song.typ_pesnicky)
                    } else {
                        r@[i].typ_piesne is None
                    }
                },
        decreases song.strofy.len() - idx,
    {
        let mut s = song.strofy[idx].clone();
        if idx == 0 {
            s.typ_piesne = Some(song.typ_pesnicky);
        } else {
            s.typ_piesne = None;
        }
        r.push(JksStrofaDB::from_strofa(&s));
        idx = idx + 1;
    }
    r
}

/// Strofy pesničky s daným číslom v poradí riadkov.
pub open spec fn strofy_s_id(s: Seq<StrofaV>, k: i32) -> Seq<StrofaV> {
    s.filter(|x: StrofaV| x.id == k)
}

/// Typ pesničky podľa jej strof: typ prvej strofy s číslom 0; ak taká nie je
/// alebo nemá typ, Hymna.
pub open spec fn typ_skupiny(s: Seq<StrofaV>) -> TypPiesne
    decreases s.len(),
{
    if s.len() == 0 {
        TypPiesne::Hymna
    } else if s[0].cislo_strofy == 0 {
        match s[0].typ_piesne {
            Some(t) => t,
            None => TypPiesne::Hymna,
        }
    } else {
        typ_skupiny(s.drop_first())
    }
}

/// Strofy, ktoré opisujú riadky.
pub open spec fn strofy_riadkov(r: Seq<JksStrofaDB>) -> Seq<StrofaV> {
    r.map_values(|x: JksStrofaDB| strofa_z_riadku(x))
}

/// Pesničky poskladané z riadkov: pre každé číslo pesničky, ktoré sa v riadkoch vyskytuje,
/// vzostupne, jedna pesnička s jeho strofami v poradí riadkov.
pub open spec fn piesne_z_riadkov(p: Seq<PiesenV>, s: Seq<StrofaV>) -> bool {
    &&& forall|i: int, j: int| 0 <= i < j < p.len() ==> (#[trigger] p[i]).id < (#[trigger] p[j]).id
    &&& forall|t: int| 0 <= t < s.len() ==> exists|i: int| 0 <= i < p.len() && (#[trigger] p[i]).id == (#[trigger] s[t]).id
    &&& forall|i: int|
        0 <= i < p.len() ==> {
            &&& (#[trigger] p[i]).strofy == strofy_s_id(s, p[i].id)
            &&& p[i].strofy.len() > 0
            &&& p[i].pocet_strof == ((p[i].strofy.len() - 1) as usize) as i32
            &&& p[i].typ_pesnicky == typ_skupiny(p[i].strofy)
        }
}

fn typ_zo_strof(s: &Vec<StrofaJKS>) -> (t: TypPiesne)
    ensures
        t == typ_skupiny(obsah_strof(s@)),
{
    let ghost o = obsah_strof(s@);
    let mut i: usize = 0;
    assert(o.skip(0) =~= o);
    while i < s.len()
        invariant
            o == obsah_strof(s@),
            i <= s.len(),
            typ_skupiny(o) == typ_skupiny(o.skip(i as int)),
        decreases s.len() - i,
    {
        proof {
            assert(o.skip(i as int)[0] == o[i as int]);
            assert(o.skip(i as int).drop_first() =~= o.skip(i + 1));
        }
        if s[i].cislo_strofy == 0 {
            return match s[i].typ_piesne {
                Some(t) => t,
                None => TypPiesne::Hymna,
            };
        }
        i = i + 1;
    }
    assert(o.skip(i as int) =~= Seq::<StrofaV>::empty());
    TypPiesne::Hymna
}

/// Najmenšie číslo pesničky väčšie ako `po` (alebo akékoľvek, ak `po` je `None`).
pub(crate) fn dalsie_cislo(s: &Vec<StrofaJKS>, po: Option<i32>) -> (r: Option<i32>)
    ensures
        match r {
            Some(k) => {
                &&& (po matches Some(p) ==> k > p)
                &&& exists|t: int| 0 <= t < s@.len() && (#[trigger] s@[t]).id == k
                &&& forall|t: int|
                    0 <= t < s@.len() && (po matches Some(p) ==> (#[trigger] s@[t]).id > p) ==> k
                        <= s@[t].id
            },
            None => forall|t: int|
                0 <= t < s@.len() ==> (po matches Some(p) && (#[trigger] s@[t]).id <= p),
        },
{
    let mut r: Option<i32> = None;
    let mut i: usize = 0;
    while i < s.len()
        invariant
            i <= s.len(),
            match r {
                Some(k) => {
                    &&& (po matches Some(p) ==> k > p)
                    &&& exists|t: int| 0 <= t < i && (#[trigger] s@[t]).id == k
                    &&& forall|t: int|
                        0 <= t < i && (po matches Some(p) ==> (#[trigger] s@[t]).id > p) ==> k
                            <= s@[t].id
                },
                None => forall|t: int|
                    0 <= t < i ==> (po matches Some(p) && (#[trigger] s@[t]).id <= p),
            },
        decreases s.len() - i,
    {
        let id = s[i].id;
        let vacsie = match po {
            Some(p) => id > p,
            None => true,
        };
        if vacsie {
            match r {
                Some(k) => {
                    if id < k {
                        r = Some(id);
                    }
                },
                None => {
                    r = Some(id);
                },
            }
        }
        i = i + 1;
    }
    r
}

/// Strofy s daným číslom pesničky v poradí.
pub(crate) fn strofy_cisla(s: &Vec<StrofaJKS>, k: i32) -> (r: Vec<StrofaJKS>)
    ensures
        obsah_strof(r@) == strofy_s_id(obsah_strof(s@), k),
{
    let ghost o = obsah_strof(s@);
    let mut r: Vec<StrofaJKS> = Vec::new();
    let mut i: usize = 0;
    assert(o.take(0) =~= Seq::<StrofaV>::empty());
    reveal_with_fuel(Seq::filter, 1);
    while i < s.len()
        invariant
            o == obsah_strof(s@),
            i <= s.len(),
            obsah_strof(r@) == strofy_s_id(o.take(i as int), k),
        decreases s.len() - i,
    {
        proof {
            assert(o.take(i + 1) =~= o.take(i as int).push(o[i as int]));
            o.take(i as int).lemma_filter_push(o[i as int], |x: StrofaV| x.id == k);
        }
        if s[i].id == k {
            let x = s[i].clone();
            r.push(x);
            assert(obsah_strof(r@) =~= strofy_s_id(o.take(i as int), k).push(o[i as int]));
        }
        i = i + 1;
    }
    assert(o.take(s.len() as int) =~= o);
    r
}

/// Poskladá pesničky z riadkov tabuľky `jks` (pre každé číslo pesničky jednu, vzostupne).
pub fn db_load_all(rows: Vec<JksStrofaDB>) -> (r: SongManager)
    ensures
        piesne_z_riadkov(r@, strofy_riadkov(rows@)),
{
    let mut strofy: Vec<StrofaJKS> = Vec::new();
    let mut i: usize = 0;
    while i < rows.len()
        invariant
            i <= rows.len(),
            obsah_strof(strofy@) == strofy_riadkov(rows@).take(i as int),
        decreases rows.len() - i,
    {
        let s = StrofaJKS::from_db(&rows[i]);
        let ghost sv = s@;
        let ghost pred = strofy@;
        strofy.push(s);
        proof {
            assert(strofy@ == pred.push(s));
            assert(strofy_riadkov(rows@)[i as int] == strofa_z_riadku(rows@[i as int]));
            assert(sv == strofa_z_riadku(rows@[i as int]));
            assert(obsah_strof(strofy@) =~= obsah_strof(pred).push(sv));
            assert(obsah_strof(strofy@) =~= strofy_riadkov(rows@).take(i + 1));
        }
        i = i + 1;
    }
    let ghost o = strofy_riadkov(rows@);
    assert(o.take(rows.len() as int) =~= o);
    assert(obsah_strof(strofy@) == o);
    let mut manager = SongManager::new();
    let mut posledne: Option<i32> = None;
    loop
        invariant
            obsah_strof(strofy@) == o,
            o == strofy_riadkov(rows@),
            forall|a: int, b: int|
                0 <= a < b < manager@.len() ==> (#[trigger] manager@[a]).id
                    < (#[trigger] manager@[b]).id,
            manager@.len() == 0 <==> posledne is None,
            posledne matches Some(p) ==> manager@[manager@.len() - 1].id == p,
            forall|t: int|
                0 <= t < o.len() && (posledne matches Some(p) && (#[trigger] o[t]).id <= p)
                    ==> exists|a: int| 0 <= a < manager@.len() && (#[trigger] manager@[a]).id == o[t].id,
            forall|a: int|
                0 <= a < manager@.len() ==> {
                    &&& (#[trigger] manager@[a]).strofy == strofy_s_id(o, manager@[a].id)
                    &&& manager@[a].strofy.len() > 0
                    &&& manager@[a].pocet_strof == ((manager@[a].strofy.len() - 1) as usize) as i32
                    &&& manager@[a].typ_pesnicky == typ_skupiny(manager@[a].strofy)
                },
        decreases (match posledne {
            Some(p) => i32::MAX - p,
            None => i32::MAX - i32::MIN + 1,
        }),
    {
        let k = match dalsie_cislo(&strofy, posledne) {
            Some(k) => k,
            None => {
                proof {
                    assert forall|t: int| 0 <= t < o.len() implies exists|a: int|
                        0 <= a < manager@.len() && (#[trigger] manager@[a]).id == (#[trigger] o[t]).id by {
                        assert(obsah_strof(strofy@)[t] == strofy@[t]@);
                    }
                    assert(piesne_z_riadkov(manager@, o));
                }
                return manager;
            },
        };
        let skupina = strofy_cisla(&strofy, k);
        proof {
            let t = choose|t: int| 0 <= t < strofy@.len() && (#[trigger] strofy@[t]).id == k;
            assert(o[t].id == k);
            o.lemma_filter_contains(|x: StrofaV| x.id == k, t);
        }
        let typ = typ_zo_strof(&skupina);
        let pocet = #[verifier::truncate] ((skupina.len() - 1) as i32);
        let ghost stare = manager@;
        let piesen = SongJks::new(k, pocet, skupina, typ);
        proof {
            assert(stare.len() > 0 ==> stare[stare.len() - 1].id < k);
        }
        manager.piesne.push(piesen);
        proof {
            let n = manager@;
            assert(n =~= stare.push(piesen@));
            assert forall|t: int|
                0 <= t < o.len() && (#[trigger] o[t]).id <= k implies exists|a: int|
                    0 <= a < n.len() && (#[trigger] n[a]).id == o[t].id by {
                assert(obsah_strof(strofy@)[t] == strofy@[t]@);
                if o[t].id == k {
                    assert(n[n.len() - 1].id == k);
                } else {
                    let a = choose|a: int| 0 <= a < stare.len() && (#[trigger] stare[a]).id == o[t].id;
                    assert(n[a] == stare[a]);
                }
            }
        }
        let ghost predtym = posledne;
        posledne = Some(k);
        proof {
            match predtym {
                Some(p) => assert(k > p),
                None => {},
            }
        }
    }
}


/// Ak majú všetky strofy to isté číslo pesničky, výber strof s týmto číslom sú všetky strofy.
proof fn lemma_vsetky_s_id(s: Seq<StrofaV>, k: i32)
    requires
        forall|t: int| 0 <= t < s.len() ==> (#[trigger] s[t]).id == k,
    ensures
        strofy_s_id(s, k) == s,
    decreases s.len(),
{
    reveal_with_fuel(Seq::filter, 1);
    if s.len() > 0 {
        lemma_vsetky_s_id(s.drop_last(), k);
        assert(s.drop_last().push(s.last()) =~= s);
    }
}

/// Strofa, ako ju vráti databáza po uložení pesničky: prvá nesie typ pesničky,
/// ostatné sú bez typu.
pub open spec fn ulozena_strofa(p: PiesenV, i: int) -> StrofaV {
    StrofaV {
        typ_piesne: if i == 0 {
            Some(p.typ_pesnicky)
        } else {
            None
        },
        ..p.strofy[i]
    }
}

/// Pesnička uložená do prázdnej tabuľky sa načíta späť: riadky, ktoré zapíše
/// `db_insert_song`, poskladá `db_load_all` do jedinej pesničky s tým istým číslom,
/// typom, počtom strof a strofami (prvá nesie typ pesničky, ostatné sú bez typu),
/// ak všetky strofy patria tejto pesničke, prvá je názov (číslo 0) a počet strof
/// zodpovedá ich zoznamu.
pub proof fn zakon_ulozenie_a_nacitanie(p: PiesenV, r: Seq<JksStrofaDB>, m: Seq<PiesenV>)
    requires
        riadky_piesne(r, p),
        piesne_z_riadkov(m, strofy_riadkov(r)),
        p.strofy.len() > 0,
        forall|i: int| 0 <= i < p.strofy.len() ==> (#[trigger] p.strofy[i]).id == p.id,
        p.strofy[0].cislo_strofy == 0,
        p.pocet_strof == p.strofy.len() - 1,
    ensures
        m.len() == 1,
        m[0].id == p.id,
        m[0].typ_pesnicky == p.typ_pesnicky,
        m[0].pocet_strof == p.pocet_strof,
        m[0].strofy.len() == p.strofy.len(),
        forall|i: int| 0 <= i < p.strofy.len() ==> (#[trigger] m[0].strofy[i]) == ulozena_strofa(p, i),
{
    let o = strofy_riadkov(r);
    assert forall|t: int| 0 <= t < o.len() implies (#[trigger] o[t]).id == p.id by {
        assert(o[t] == strofa_z_riadku(r[t]));
        assert(r[t].id == p.strofy[t].id);
    }
    lemma_vsetky_s_id(o, p.id);
    // každá pesnička má strofy, a teda číslo p.id
    assert forall|i: int| 0 <= i < m.len() implies (#[trigger] m[i]).id == p.id by {
        let s = m[i].strofy;
        assert(s == strofy_s_id(o, m[i].id));
        assert(s.len() > 0);
        o.lemma_filter_pred(|x: StrofaV| x.id == m[i].id, 0);
        assert(s.contains(s[0]));
        o.lemma_filter_contains_rev(|x: StrofaV| x.id == m[i].id, s[0]);
        let t = choose|t: int| 0 <= t < o.len() && o[t] == s[0];
        assert(o[t].id == p.id);
    }
    if m.len() > 1 {
        assert(m[0].id < m[1].id);
        assert(false);
    }
    assert(o[0] == strofa_z_riadku(r[0]));
    assert(m.len() == 1);
    let q = m[0];
    assert(q.strofy == o);
    assert(o.len() == p.strofy.len());
    // typ pesničky je v prvom riadku
    zakon_nazov_a_spat(p.typ_pesnicky);
    assert(o[0].typ_piesne == Some(p.typ_pesnicky));
    assert(typ_skupiny(o) == p.typ_pesnicky);
    assert forall|i: int| 0 <= i < p.strofy.len() implies (#[trigger] m[0].strofy[i]) == ulozena_strofa(p, i) by {
        assert(o[i] == strofa_z_riadku(r[i]));
        if i == 0 {
            assert(r[i].typ_piesne matches Some(x) && x@ == nazov_typu(p.typ_pesnicky));
        }
    }
}

} // verus!
