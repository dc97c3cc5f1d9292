//! Typy a dátové štruktúry pre prácu s JKS pesničkami a ich správu.
use vstd::prelude::*;
use crate::text::{cislo_na_znaky, dec_int, retazec, znaky};
use crate::typ::TypPiesne;
use crate::zoradenie::{self, je_zoradeny, obsah, s_klucom, vloz_za_rovnake, zorad, Kluc};

verus! {

/// Jedna strofa JKS pesničky uložená v pamäti.
#[derive(Debug)]
pub struct StrofaJKS {
    pub id: i32,
    pub cislo_strofy: i32,
    pub typ_piesne: Option<TypPiesne>,
    pub text: String,
}

/// Abstraktný obsah strofy.
pub ghost struct StrofaV {
    pub id: i32,
    pub cislo_strofy: i32,
    pub typ_piesne: Option<TypPiesne>,
    pub text: Seq<char>,
}

impl View for StrofaJKS {
    type V = StrofaV;

    open spec fn view(&self) -> StrofaV {
        StrofaV {
            id: self.id,
            cislo_strofy: self.cislo_strofy,
            typ_piesne: self.typ_piesne,
            text: self.text@,
        }
    }
}

impl Clone for StrofaJKS {
    fn clone(&self) -> (r: Self)
        ensures
            r == *self,
    {
        StrofaJKS {
            id: self.id,
            cislo_strofy: self.cislo_strofy,
            typ_piesne: self.typ_piesne,
            text: self.text.clone(),
        }
    }
}

/// Celá JKS pesnička vrátane strof a typu.
#[derive(Debug)]
pub struct SongJks {
    pub id: i32,
    pub pocet_strof: i32,
    pub strofy: Vec<StrofaJKS>,
    pub typ_pesnicky: TypPiesne,
}

/// Abstraktný obsah pesničky.
pub ghost struct PiesenV {
    pub id: i32,
    pub pocet_strof: i32,
    pub strofy: Seq<StrofaV>,
    pub typ_pesnicky: TypPiesne,
}

/// Obsah zoznamu strof.
pub open spec fn obsah_strof(s: Seq<StrofaJKS>) -> Seq<StrofaV> {
    obsah(s)
}

impl View for SongJks {
    type V = PiesenV;

    open spec fn view(&self) -> PiesenV {
        PiesenV {
            id: self.id,
            pocet_strof: self.pocet_strof,
            strofy: obsah_strof(self.strofy@),
            typ_pesnicky: self.typ_pesnicky,
        }
    }
}

impl Clone for SongJks {
    fn clone(&self) -> (r: Self)
        ensures
            r@ == self@,
    {
        let strofy = self.strofy.clone();
        proof {
            assert(obsah_strof(strofy@) =~= obsah_strof(self.strofy@));
        }
        SongJks {
            id: self.id,
            pocet_strof: self.pocet_strof,
            strofy,
            typ_pesnicky: self.typ_pesnicky,
        }
    }
}

/// Text, ktorý vráti `get_strofa_text`, keď strofa s daným číslom neexistuje.
pub open spec fn text_nenajdene() -> Seq<char> {
    seq!['N', 'e', 'n', 'a', 'j', 'd', 'e', 'n', 'e', ' ', 'E', 'R', 'R', 'O', 'R']
}

/// `n` medzier (žiadna, ak `n` nie je kladné).
pub open spec fn medzery(n: int) -> Seq<char> {
    Seq::new(
        if n > 0 {
            n as nat
        } else {
            0
        },
        |i: int| ' ',
    )
}

/// Text zarovnaný doprava na danú šírku (ako `{:>sirka}` vo `format!`).
pub open spec fn zarovnane_vpravo(s: Seq<char>, sirka: int) -> Seq<char> {
    medzery(sirka - s.len()) + s
}

/// Riadok pesničky v zoznamoch: číslo zarovnané doprava na 5 znakov,
/// dve medzery a text strofy 0 (názov).
pub open spec fn format_piesne(p: PiesenV) -> Seq<char> {
    zarovnane_vpravo(dec_int(p.id as int), 5) + seq![' ', ' '] + p.strofy[0].text
}

impl SongJks {
    /// Vytvorí novú pesničku z id, počtu strof, zoznamu strof a typu pesničky.
    pub fn new(id: i32, pocet_strof: i32, strofy: Vec<StrofaJKS>, typ_piesne: TypPiesne) -> (r:
        SongJks)
        ensures
            r.id == id,
            r.pocet_strof == pocet_strof,
            r.strofy == strofy,
            r@.strofy == obsah_strof(strofy@),
            r.typ_pesnicky == typ_piesne,
    {
        SongJks { id, pocet_strof, strofy, typ_pesnicky: typ_piesne }
    }

    /// Vráti text zadanej strofy podľa indexu, alebo chybové hlásenie.
    pub fn get_strofa_text(&self, number_of_strofa: i32) -> (r: &str)
        ensures
            r@ == if 0 <= number_of_strofa < self.strofy@.len() {
                self.strofy@[number_of_strofa as int].text@
            } else {
                text_nenajdene()
            },
    {
        if number_of_strofa >= 0 && (number_of_strofa as usize) < self.strofy.len() {
            self.strofy[number_of_strofa as usize].text.as_str()
        } else {
            let r = "Nenajdene ERROR";
            proof {
                reveal_strlit("Nenajdene ERROR");
                assert(r@ =~= text_nenajdene());
            }
            r
        }
    }

    /// Naformátuje pesničku pre zobrazenie v zoznamoch (id a názov/strofa 0).
    pub fn format_song(&self) -> (r: String)
        requires
            self.strofy@.len() > 0,
        ensures
            r@ == format_piesne(self@),
    {
        let cislo = cislo_na_znaky(self.id as i64);
        let mut z: Vec<char> = Vec::new();
        let mut i: usize = cislo.len();
        while i < 5
            invariant
                cislo.len() <= i,
                i <= 5 || i == cislo.len(),
                z@ == medzery(i - cislo.len()),
            decreases 5 - i,
        {
            z.push(' ');
            i = i + 1;
            proof {
                assert(z@ =~= medzery(i - cislo.len()));
            }
        }
        proof {
            assert(z@ =~= medzery(5 - cislo@.len()));
        }
        let mut j: usize = 0;
        while j < cislo.len()
            invariant
                j <= cislo.len(),
                z@ == medzery(5 - cislo@.len()) + cislo@.subrange(0, j as int),
            decreases cislo.len() - j,
        {
            proof {
                assert(cislo@.subrange(0, j + 1) =~= cislo@.subrange(0, j as int).push(
                    cislo@[j as int],
                ));
            }
            z.push(cislo[j]);
            j = j + 1;
        }
        assert(cislo@.subrange(0, cislo@.len() as int) =~= cislo@);
        z.push(' ');
        z.push(' ');
        let text = znaky(self.strofy[0].text.as_str());
        let ghost zaklad = z@;
        let mut k: usize = 0;
        while k < text.len()
            invariant
                k <= text.len(),
                z@ == zaklad + text@.subrange(0, k as int),
            decreases text.len() - k,
        {
            proof {
                assert(text@.subrange(0, k + 1) =~= text@.subrange(0, k as int).push(
                    text@[k as int],
                ));
            }
            z.push(text[k]);
            k = k + 1;
        }
        proof {
            assert(text@.subrange(0, text@.len() as int) =~= text@);
            assert(z@ =~= format_piesne(self@));
        }
        retazec(&z)
    }
}

/// Kontajner na všetky pesničky s pomocnými metódami.
#[derive(Debug)]
pub struct SongManager {
    pub piesne: Vec<SongJks>,
}

/// Obsah zoznamu pesničiek.
pub open spec fn obsah_piesni(s: Seq<SongJks>) -> Seq<PiesenV> {
    obsah(s)
}

impl View for SongManager {
    type V = Seq<PiesenV>;

    open spec fn view(&self) -> Seq<PiesenV> {
        obsah_piesni(self.piesne@)
    }
}

/// Pesnička má dané id a typ.
pub open spec fn zhoda(p: PiesenV, id: i32, typ: TypPiesne) -> bool {
    p.id == id && p.typ_pesnicky == typ
}

/// `i` je index prvej pesničky s daným id a typom.
pub open spec fn prva_zhoda(s: Seq<PiesenV>, id: i32, typ: TypPiesne, i: int) -> bool {
    &&& 0 <= i < s.len()
    &&& zhoda(s[i], id, typ)
    &&& forall|j: int| 0 <= j < i ==> !zhoda(#[trigger] s[j], id, typ)
}

/// Žiadna pesnička nemá dané id a typ.
pub open spec fn ziadna_zhoda(s: Seq<PiesenV>, id: i32, typ: TypPiesne) -> bool {
    forall|j: int| 0 <= j < s.len() ==> !zhoda(#[trigger] s[j], id, typ)
}

impl Kluc for SongJks {
    open spec fn kluc(v: PiesenV) -> i32 {
        v.id
    }

    fn daj_kluc(&self) -> (r: i32) {
        self.id
    }
}

/// `r` je stabilne zoradené `s` podľa id: zoradené, a pesničky s rovnakým id
/// idú v rovnakom poradí ako v `s` (teda `r` je preusporiadanie `s`).
pub open spec fn stabilne_zoradene(r: Seq<PiesenV>, s: Seq<PiesenV>) -> bool {
    zoradenie::stabilne_zoradene::<SongJks>(r, s)
}

/// Pesničky s daným id v pôvodnom poradí.
pub open spec fn s_cislom(s: Seq<PiesenV>, k: i32) -> Seq<PiesenV> {
    s_klucom::<SongJks>(s, k)
}

impl Default for SongManager {
    fn default() -> (r: Self)
        ensures
            r@ == Seq::<PiesenV>::empty(),
    {
        SongManager::new()
    }
}

impl SongManager {
    /// Vytvorí prázdny správca pesničiek.
    pub fn new() -> (r: SongManager)
        ensures
            r@ == Seq::<PiesenV>::empty(),
    {
        let r = SongManager { piesne: Vec::new() };
        assert(r@ =~= Seq::<PiesenV>::empty());
        r
    }

    /// Pridá pesničku a udržiava zoznam zoradený podľa id
    /// (pesnička príde za tie, ktoré majú rovnaké id).
    pub fn add_song(&mut self, napridanie: SongJks)
        ensures
            stabilne_zoradene(final(self)@, old(self)@.push(napridanie@)),
            final(self)@.len() == old(self)@.len() + 1,
    {
        if je_zoradeny(&self.piesne) {
            vloz_za_rovnake(&mut self.piesne, napridanie);
        } else {
            let ghost stare = self@;
            let ghost e = napridanie@;
            self.piesne.push(napridanie);
            assert(self@ =~= stare.push(e));
            zorad(&mut self.piesne);
        }
    }

    /// Nájde prvú pesničku s daným id a typom.
    pub fn get_song_by_id(&self, id: i32, typ_piesne: TypPiesne) -> (r: Option<&SongJks>)
        ensures
            match r {
                Some(p) => exists|i: int| prva_zhoda(self@, id, typ_piesne, i) && p@ == self@[i],
                None => ziadna_zhoda(self@, id, typ_piesne),
            },
    {
        let mut i: usize = 0;
        while i < self.piesne.len()
            invariant
                i <= self.piesne.len(),
                forall|j: int| 0 <= j < i ==> !zhoda(#[trigger] self@[j], id, typ_piesne),
            decreases self.piesne.len() - i,
        {
            if self.piesne[i].id == id && self.piesne[i].typ_pesnicky == typ_piesne {
                assert(prva_zhoda(self@, id, typ_piesne, i as int));
                return Some(&self.piesne[i]);
            }
            i = i + 1;
        }
        None
    }

    /// Odstráni prvú pesničku s daným id a typom, ak existuje.
    pub fn remove_song_by_id(&mut self, id: i32, typ_piesne: TypPiesne)
        ensures
            forall|i: int|
                prva_zhoda(old(self)@, id, typ_piesne, i) ==> final(self)@ == old(self)@.remove(i),
            ziadna_zhoda(old(self)@, id, typ_piesne) ==> final(self)@ == old(self)@,
    {
        let mut i: usize = 0;
        while i < self.piesne.len()
            invariant
                i <= self.piesne.len(),
                self@ == old(self)@,
                forall|j: int| 0 <= j < i ==> !zhoda(#[trigger] self@[j], id, typ_piesne),
            decreases self.piesne.len() - i,
        {
            if self.piesne[i].id == id && self.piesne[i].typ_pesnicky == typ_piesne {
                let ghost stare = self@;
                assert(prva_zhoda(stare, id, typ_piesne, i as int));
                self.piesne.remove(i);
                assert(self@ =~= stare.remove(i as int));
                return;
            }
            i = i + 1;
        }
    }

    /// Vráti všetky pesničky ako zoznam referencií.
    pub fn get_all_songs(&self) -> (r: Vec<&SongJks>)
        ensures
            r@.len() == self@.len(),
            forall|i: int| 0 <= i < r@.len() ==> (#[trigger] r@[i])@ == self@[i],
    {
        let mut r: Vec<&SongJks> = Vec::new();
        let mut i: usize = 0;
        while i < self.piesne.len()
            invariant
                i <= self.piesne.len(),
                r@.len() == i,
                forall|j: int| 0 <= j < i ==> (#[trigger] r@[j])@ == self@[j],
            decreases self.piesne.len() - i,
        {
            r.push(&self.piesne[i]);
            i = i + 1;
        }
        r
    }

    /// Zistí, či správca neobsahuje žiadne pesničky.
    pub fn is_empty(&self) -> (r: bool)
        ensures
            r == (self@.len() == 0),
    {
        self.piesne.is_empty()
    }

    /// Vráti všetky pesničky naformátované ako textové riadky.
    pub fn get_format_all(&self) -> (r: Vec<String>)
        requires
            forall|i: int| 0 <= i < self@.len() ==> (#[trigger] self@[i]).strofy.len() > 0,
        ensures
            r@.len() == self@.len(),
            forall|i: int| 0 <= i < r@.len() ==> (#[trigger] r@[i])@ == format_piesne(self@[i]),
    {
        let mut r: Vec<String> = Vec::new();
        let mut i: usize = 0;
        while i < self.piesne.len()
            invariant
                i <= self.piesne.len(),
                forall|j: int| 0 <= j < self@.len() ==> (#[trigger] self@[j]).strofy.len() > 0,
                r@.len() == i,
                forall|j: int| 0 <= j < i ==> (#[trigger] r@[j])@ == format_piesne(self@[j]),
            decreases self.piesne.len() - i,
        {
            assert(self@[i as int].strofy.len() > 0);
            r.push(self.piesne[i].format_song());
            i = i + 1;
        }
        r
    }
}

proof fn lemma_prva_zhoda(s: Seq<PiesenV>, id: i32, typ: TypPiesne, j: int)
    requires
        0 <= j < s.len(),
        zhoda(s[j], id, typ),
    ensures
        exists|i: int| prva_zhoda(s, id, typ, i),
    decreases j,
{
    if forall|k: int| 0 <= k < j ==> !zhoda(#[trigger] s[k], id, typ) {
        assert(prva_zhoda(s, id, typ, j));
    } else {
        let k = choose|k: int| 0 <= k < j && zhoda(#[trigger] s[k], id, typ);
        lemma_prva_zhoda(s, id, typ, k);
    }
}

/// Pridaná pesnička sa dá nájsť: po `add_song(e)` vráti `get_song_by_id(e.id, e.typ_pesnicky)`
/// nejakú pesničku (prvú s týmto id a typom).
pub proof fn zakon_pridana_sa_najde(s: Seq<PiesenV>, e: PiesenV, n: Seq<PiesenV>)
    requires
        stabilne_zoradene(n, s.push(e)),
    ensures
        exists|i: int| prva_zhoda(n, e.id, e.typ_pesnicky, i),
{
    let k = e.id;
    assert(s_cislom(n, k) == s_cislom(s.push(e), k));
    zoradenie::lemma_push::<SongJks>(s, e, k);
    let f = s_cislom(n, k);
    assert(f[f.len() - 1] == e);
    assert(f.contains(e));
    zoradenie::lemma_obsahuje::<SongJks>(n, k, e);
    let j = choose|j: int| 0 <= j < n.len() && n[j] == e;
    lemma_prva_zhoda(n, e.id, e.typ_pesnicky, j);
}

/// Pridanie a odobranie tej istej pesničky: ak správca nemal pesničku s týmto id a typom,
/// `add_song(e)` a potom `remove_song_by_id(e.id, e.typ_pesnicky)` nechá pôvodné pesničky
/// stabilne zoradené podľa id (s každým id v pôvodnom poradí).
pub proof fn zakon_pridaj_a_odober(s: Seq<PiesenV>, e: PiesenV, n: Seq<PiesenV>, m: Seq<PiesenV>)
    requires
        stabilne_zoradene(n, s.push(e)),
        ziadna_zhoda(s, e.id, e.typ_pesnicky),
        forall|i: int| prva_zhoda(n, e.id, e.typ_pesnicky, i) ==> m == n.remove(i),
    ensures
        stabilne_zoradene(m, s),
{
    zakon_pridana_sa_najde(s, e, n);
    let i = choose|i: int| prva_zhoda(n, e.id, e.typ_pesnicky, i);
    assert(m == n.remove(i));
    let k = e.id;
    let x = n[i];
    let a = n.subrange(0, i);
    let b = n.subrange(i + 1, n.len() as int);
    assert(n =~= a + seq![x] + b);
    assert(m =~= a + b);
    // zoradenie ostáva
    assert forall|p: int, q: int| 0 <= p <= q < m.len() implies #[trigger] SongJks::kluc(m[p])
        <= #[trigger] SongJks::kluc(m[q]) by {
        if q < i {
            assert(SongJks::kluc(n[p]) <= SongJks::kluc(n[q]));
        } else if p < i {
            assert(SongJks::kluc(n[p]) <= SongJks::kluc(n[q + 1]));
        } else {
            assert(SongJks::kluc(n[p + 1]) <= SongJks::kluc(n[q + 1]));
        }
    }
    assert forall|kk: i32| #[trigger] s_klucom::<SongJks>(m, kk) == s_cislom(s, kk) by {
        zoradenie::lemma_spoj::<SongJks>(a + seq![x], b, kk);
        zoradenie::lemma_spoj::<SongJks>(a, seq![x], kk);
        zoradenie::lemma_spoj::<SongJks>(a, b, kk);
        zoradenie::lemma_jeden::<SongJks>(x, kk);
        zoradenie::lemma_push::<SongJks>(s, e, kk);
        assert(s_cislom(n, kk) == s_cislom(s.push(e), kk));
        if kk == k {
            let fs = s_cislom(s, k);
            let fa = s_cislom(a, k);
            let fb = s_cislom(b, k);
            // celý filter: fa + [x] + fb == fs + [e]
            assert(fa + seq![x] + fb == fs.push(e));
            // v fs nie je žiadna pesnička s typom e
            assert forall|t: int| 0 <= t < fs.len() implies (#[trigger] fs[t]).typ_pesnicky
                != e.typ_pesnicky by {
                zoradenie::lemma_prvok::<SongJks>(s, k, t);
                let j = choose|j: int| 0 <= j < s.len() && s[j] == fs[t];
                assert(!zhoda(s[j], e.id, e.typ_pesnicky));
            }
            let g = fa + seq![x] + fb;
            assert(g[fa.len() as int] == x);
            if fa.len() < fs.len() {
                assert(g[fa.len() as int] == fs[fa.len() as int]);
                assert(false);
            }
            if fb.len() > 0 {
                assert(g[g.len() - 1] == fb[fb.len() - 1]);
                assert(g[g.len() - 1] == e);
                assert(fb.contains(e));
                zoradenie::lemma_obsahuje::<SongJks>(b, k, e);
                let j = choose|j: int| 0 <= j < b.len() && b[j] == e;
                assert(n[i + 1 + j] == e);
                assert(zhoda(n[i + 1 + j], e.id, e.typ_pesnicky));
                assert(g.len() == fs.len() + 1);
                assert(false);
            }
            assert(fb =~= Seq::<PiesenV>::empty());
            assert(fa =~= fs) by {
                assert forall|t: int| 0 <= t < fa.len() implies fa[t] == fs[t] by {
                    assert(g[t] == fa[t]);
                }
            }
            assert(fa + fb =~= fa);
        } else {
            assert(s_cislom(a, kk) + Seq::<PiesenV>::empty() =~= s_cislom(a, kk));
        }
    }
}

} // verus!
