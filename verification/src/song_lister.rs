//! Zoznamy piesní v textovom rozhraní: lineárny zoznam s výberom
//! a strom piesní podľa typov s vyhľadávaním.
use vstd::prelude::*;
use crate::library_jks::{format_piesne, PiesenV, SongJks, SongManager};
use crate::text::{male_pismena, na_male, obsahuje, obsahuje_spec};
use crate::typ::{nazov_jks, nazov_typu, JKSTypPiesne, TypPiesne};

verus! {

/// Identifikátor uzlov v stromovom zobrazení piesní.
#[derive(Debug, Clone, Copy, PartialEq, Eq, Structural, Hash)]
pub enum TreeId {
    /// Koreňový priečinok podľa hlavného typu piesne.
    FolderTyp(TypPiesne),
    /// Podpriečinok pre konkrétny JKS podtyp.
    FolderJks(JKSTypPiesne),
    /// Konkrétna pesnička podľa jej typu a ID.
    Song(TypPiesne, i32),
}

/// Výber v lineárnom zozname (index vybranej položky, ak nejaká je).
#[derive(Debug, Clone, Copy, PartialEq, Eq, Structural)]
pub struct VyberZoznamu {
    pub vybrany: Option<usize>,
}

impl VyberZoznamu {
    /// Nič nie je vybraté.
    pub fn new() -> (r: Self)
        ensures
            r.vybrany is None,
    {
        VyberZoznamu { vybrany: None }
    }

    /// Index vybranej položky.
    pub fn selected(&self) -> (r: Option<usize>)
        ensures
            r == self.vybrany,
    {
        self.vybrany
    }

    /// Nastaví výber.
    pub fn select(&mut self, index: Option<usize>)
        ensures
            final(self).vybrany == index,
    {
        self.vybrany = index;
    }
}

/// Jednoduchý lineárny zoznam piesní s výberom.
#[derive(Debug)]
pub struct SongListerList {
    pub song_manager: SongManager,
    pub state: VyberZoznamu,
}

/// Index po posune výberu dopredu v zozname dĺžky `len` (s cyklovaním na začiatok).
pub open spec fn dalsi_index(vybrany: Option<usize>, len: nat) -> Option<usize> {
    if len == 0 {
        vybrany
    } else {
        match vybrany {
            Some(i) => if i + 1 < len {
                Some((i + 1) as usize)
            } else {
                Some(0)
            },
            None => Some(0),
        }
    }
}

/// Index po posune výberu dozadu v zozname dĺžky `len` (s cyklovaním na koniec).
pub open spec fn predosly_index(vybrany: Option<usize>, len: nat) -> Option<usize> {
    if len == 0 {
        vybrany
    } else {
        match vybrany {
            Some(i) => if i == 0 {
                Some((len - 1) as usize)
            } else {
                Some((i - 1) as usize)
            },
            None => Some((len - 1) as usize),
        }
    }
}

impl Default for SongListerList {
    fn default() -> (r: Self)
        ensures
            r.song_manager@.len() == 0,
            r.state.vybrany is None,
    {
        SongListerList { song_manager: SongManager::new(), state: VyberZoznamu::new() }
    }
}

impl SongListerList {
    /// Vytvorí nový prázdny zoznam piesní.
    pub fn new() -> (r: Self)
        ensures
            r.song_manager@.len() == 0,
            r.state.vybrany is None,
    {
        Self::default()
    }

    /// Posunie výber na ďalšiu pesničku (s cyklovaním na začiatok).
    pub fn select_next(&mut self)
        ensures
            final(self).song_manager == old(self).song_manager,
            final(self).state.vybrany == dalsi_index(
                old(self).state.vybrany,
                old(self).song_manager@.len(),
            ),
    {
        let len = self.song_manager.piesne.len();
        if len == 0 {
            return;
        }
        let i = match self.state.selected() {
            Some(i) => if i < len - 1 {
                i + 1
            } else {
                0
            },
            None => 0,
        };
        self.state.select(Some(i));
    }

    /// Posunie výber na predchádzajúcu pesničku (s cyklovaním na koniec).
    pub fn select_previous(&mut self)
        ensures
            final(self).song_manager == old(self).song_manager,
            final(self).state.vybrany == predosly_index(
                old(self).state.vybrany,
                old(self).song_manager@.len(),
            ),
    {
        let len = self.song_manager.piesne.len();
        if len == 0 {
            return;
        }
        let i = match self.state.selected() {
            Some(0) | None => len - 1,
            Some(i) => i - 1,
        };
        self.state.select(Some(i));
    }

    /// Ak nič nie je vybraté a zoznam nie je prázdny, vyberie prvú pesničku.
    pub fn ensure_selected(&mut self)
        ensures
            final(self).song_manager == old(self).song_manager,
            final(self).state.vybrany == if old(self).state.vybrany is None
                && old(self).song_manager@.len() > 0 {
                Some(0usize)
            } else {
                old(self).state.vybrany
            },
    {
        if self.state.selected().is_none() && !self.song_manager.is_empty() {
            self.state.select(Some(0));
        }
    }

    /// Vráti index aktuálne vybranej pesničky.
    pub fn selected_index(&self) -> (r: Option<usize>)
        ensures
            r == self.state.vybrany,
    {
        self.state.selected()
    }

    /// Vráti referenciu na aktuálne vybranú pesničku.
    pub fn get_selected_song(&self) -> (r: Option<&SongJks>)
        ensures
            match self.state.vybrany {
                Some(i) => if i < self.song_manager@.len() {
                    r matches Some(p) && p@ == self.song_manager@[i as int]
                } else {
                    r is None
                },
                None => r is None,
            },
    {
        let idx = match self.state.selected() {
            Some(i) => i,
            None => return None,
        };
        if idx < self.song_manager.piesne.len() {
            Some(&self.song_manager.piesne[idx])
        } else {
            None
        }
    }

    /// Odstráni aktuálne vybranú pesničku zo zoznamu a upraví výber.
    pub fn remove_selected(&mut self)
        ensures
            match old(self).state.vybrany {
                Some(i) => if i < old(self).song_manager@.len() {
                    &&& final(self).song_manager@ == old(self).song_manager@.remove(i as int)
                    &&& final(self).state.vybrany == if final(self).song_manager@.len() == 0 {
                        None
                    } else if i >= final(self).song_manager@.len() {
                        Some((final(self).song_manager@.len() - 1) as usize)
                    } else {
                        Some(i)
                    }
                } else {
                    final(self).song_manager@ == old(self).song_manager@ && final(self).state
                        == old(self).state
                },
                None => final(self).song_manager@ == old(self).song_manager@ && final(self).state
                    == old(self).state,
            },
    {
        if let Some(idx) = self.state.selected() {
            if idx < self.song_manager.piesne.len() {
                let ghost stare = self.song_manager@;
                self.song_manager.piesne.remove(idx);
                assert(self.song_manager@ =~= stare.remove(idx as int));
                let len = self.song_manager.piesne.len();
                if len == 0 {
                    self.state.select(None);
                } else if idx >= len {
                    self.state.select(Some(len - 1));
                } else {
                    self.state.select(Some(idx));
                }
            }
        }
    }
}

/// Správca stromového zobrazenia piesní (podľa typu a JKS podtypu) s vyhľadávaním.
/// Stav rozbalenia a výberu v strome drží zobrazovacia vrstva.
#[derive(Debug)]
pub struct SongLister {
    pub song_manager: SongManager,
    pub search: String,
}

/// Obsah zoznamu odkazov na pesničky.
pub open spec fn obsah_odkazov(v: Seq<&SongJks>) -> Seq<PiesenV> {
    v.map_values(|x: &SongJks| x@)
}

/// Pesnička vyhovuje hľadanému textu: jej riadok (číslo a názov) malými písmenami
/// obsahuje hľadaný text malými písmenami.
pub open spec fn vyhovuje(p: PiesenV, hladane: Seq<char>) -> bool {
    obsahuje_spec(male_pismena(format_piesne(p)), male_pismena(hladane))
}

/// Pesničky, ktoré ukáže vyhľadávanie (v pôvodnom poradí).
pub open spec fn vysledok_hladania(s: Seq<PiesenV>, hladane: Seq<char>) -> Seq<PiesenV> {
    if hladane.len() == 0 {
        s
    } else {
        s.filter(|p: PiesenV| vyhovuje(p, hladane))
    }
}

/// Každá pesnička má aspoň jednu strofu (názov).
pub open spec fn maju_nazov(s: Seq<PiesenV>) -> bool {
    forall|i: int| 0 <= i < s.len() ==> (#[trigger] s[i]).strofy.len() > 0
}

/// List stromu: jedna pesnička.
#[derive(Debug)]
pub struct ListStromu {
    pub id: TreeId,
    pub text: String,
}

/// Priečinok stromu s pesničkami jedného typu.
#[derive(Debug)]
pub struct Priecinok {
    pub id: TreeId,
    pub nazov: String,
    pub piesne: Vec<ListStromu>,
}

/// Strom piesní: priečinky ne-JKS typov a podpriečinky koreňa „JKS“
/// (koreň „JKS“ sa zobrazí, len ak má nejaký podpriečinok).
#[derive(Debug)]
pub struct Strom {
    pub priecinky: Vec<Priecinok>,
    pub jks: Vec<Priecinok>,
}

/// Ne-JKS typy v poradí zoradenia.
pub open spec fn ne_jks_typy() -> Seq<TypPiesne> {
    seq![
        TypPiesne::AntifonaSurin,
        TypPiesne::Antifona,
        TypPiesne::Taize,
        TypPiesne::Mladeznicka,
        TypPiesne::Hymna,
        TypPiesne::Zalm,
        TypPiesne::Responz,
    ]
}

/// JKS podtypy v poradí zoradenia.
pub open spec fn jks_typy() -> Seq<JKSTypPiesne> {
    seq![
        JKSTypPiesne::Advent,
        JKSTypPiesne::Vianoce,
        JKSTypPiesne::KNajsvMenuJezisovmu,
        JKSTypPiesne::Post,
        JKSTypPiesne::VelkaNoc,
        JKSTypPiesne::NaneboVstupeniePana,
        JKSTypPiesne::NaDuchaSvateho,
        JKSTypPiesne::NaNajsvatejsiuTrojicu,
        JKSTypPiesne::NaBozieTelo,
        JKSTypPiesne::KSrdcuJezisovmu,
        JKSTypPiesne::KSvatejOmsi,
        JKSTypPiesne::KNajsvaSviatostiOltarnej,
        JKSTypPiesne::Litanie,
        JKSTypPiesne::AntifonaKPM,
        JKSTypPiesne::KPanneMarii,
        JKSTypPiesne::KSvatym,
        JKSTypPiesne::ZaZomrelych,
        JKSTypPiesne::Kajuce,
        JKSTypPiesne::PiesnePrilezitostne,
        JKSTypPiesne::PredPozehnanim,
        JKSTypPiesne::Ofertorium,
    ]
}

/// Pesničky daného typu v pôvodnom poradí.
pub open spec fn piesne_typu(s: Seq<PiesenV>, t: TypPiesne) -> Seq<PiesenV> {
    s.filter(|p: PiesenV| p.typ_pesnicky == t)
}

/// Listy priečinka zodpovedajú pesničkám `f`.
pub open spec fn listy_su(l: Seq<ListStromu>, f: Seq<PiesenV>) -> bool {
    &&& l.len() == f.len()
    &&& forall|j: int|
        0 <= j < l.len() ==> (#[trigger] l[j]).id == TreeId::Song(f[j].typ_pesnicky, f[j].id)
            && l[j].text@ == format_piesne(f[j])
}

/// Typy ne-JKS priečinkov, ktoré strom obsahuje.
pub open spec fn typy_priecinkov(s: Seq<PiesenV>) -> Seq<TypPiesne> {
    ne_jks_typy().filter(|t: TypPiesne| piesne_typu(s, t).len() > 0)
}

/// JKS podtypy, ktoré strom obsahuje.
pub open spec fn typy_jks_priecinkov(s: Seq<PiesenV>) -> Seq<JKSTypPiesne> {
    jks_typy().filter(|t: JKSTypPiesne| piesne_typu(s, TypPiesne::JKS(t)).len() > 0)
}

/// Strom presne zodpovedá pesničkám `s`.
pub open spec fn strom_pre(r: Strom, s: Seq<PiesenV>) -> bool {
    &&& r.priecinky@.len() == typy_priecinkov(s).len()
    &&& forall|i: int|
        0 <= i < r.priecinky@.len() ==> {
            let t = typy_priecinkov(s)[i];
            &&& (#[trigger] r.priecinky@[i]).id == TreeId::FolderTyp(t)
            &&& r.priecinky@[i].nazov@ == nazov_typu(t)
            &&& listy_su(r.priecinky@[i].piesne@, piesne_typu(s, t))
        }
    &&& r.jks@.len() == typy_jks_priecinkov(s).len()
    &&& forall|i: int|
        0 <= i < r.jks@.len() ==> {
            let t = typy_jks_priecinkov(s)[i];
            &&& (#[trigger] r.jks@[i]).id == TreeId::FolderJks(t)
            &&& r.jks@[i].nazov@ == nazov_jks(t)
            &&& listy_su(r.jks@[i].piesne@, piesne_typu(s, TypPiesne::JKS(t)))
        }
}

/// Listy pre pesničky daného typu.
fn listy_typu(piesne: &Vec<&SongJks>, t: TypPiesne) -> (r: Vec<ListStromu>)
    requires
        maju_nazov(obsah_odkazov(piesne@)),
    ensures
        listy_su(r@, piesne_typu(obsah_odkazov(piesne@), t)),
{
    let ghost s = obsah_odkazov(piesne@);
    let mut r: Vec<ListStromu> = Vec::new();
    let mut i: usize = 0;
    assert(s.take(0) =~= Seq::<PiesenV>::empty());
    reveal_with_fuel(Seq::filter, 1);
    while i < piesne.len()
        invariant
            s == obsah_odkazov(piesne@),
            maju_nazov(s),
            i <= piesne.len(),
            listy_su(r@, piesne_typu(s.take(i as int), t)),
        decreases piesne.len() - i,
    {
        let p = piesne[i];
        proof {
            assert(s.take(i + 1) =~= s.take(i as int).push(s[i as int]));
            s.take(i as int).lemma_filter_push(s[i as int], |q: PiesenV| q.typ_pesnicky == t);
            assert(s[i as int] == p@);
        }
        if p.typ_pesnicky == t {
            assert(p@.strofy.len() > 0);
            let text = p.format_song();
            r.push(ListStromu { id: TreeId::Song(p.typ_pesnicky, p.id), text });
        }
        i = i + 1;
    }
    assert(s.take(piesne.len() as int) =~= s);
    r
}

impl SongLister {
    /// Vytvorí stromový lister nad danými pesničkami s prázdnym hľadaním.
    pub fn new(song_manager: SongManager) -> (r: Self)
        ensures
            r.song_manager == song_manager,
            r.search@.len() == 0,
    {
        SongLister { song_manager, search: String::new() }
    }

    /// Vráti piesne prefiltrované podľa `search` reťazca.
    ///
    /// Filtrovanie prebieha nad textom z `format_song()` (ID + názov).
    pub fn search_get_formated(&self) -> (r: Vec<&SongJks>)
        requires
            self.search@.len() > 0 ==> maju_nazov(self.song_manager@),
        ensures
            obsah_odkazov(r@) == vysledok_hladania(self.song_manager@, self.search@),
    {
        let all = self.song_manager.get_all_songs();
        proof {
            assert(obsah_odkazov(all@) =~= self.song_manager@);
        }
        if self.search.as_str().is_empty() {
            return all;
        }
        let hladane = na_male(self.search.as_str());
        let ghost s = self.song_manager@;
        let ghost pred = |p: PiesenV| vyhovuje(p, self.search@);
        let mut r: Vec<&SongJks> = Vec::new();
        let mut i: usize = 0;
        assert(s.take(0) =~= Seq::<PiesenV>::empty());
        reveal_with_fuel(Seq::filter, 1);
        while i < all.len()
            invariant
                s == self.song_manager@,
                obsah_odkazov(all@) == s,
                maju_nazov(s),
                hladane@ == male_pismena(self.search@),
                pred == (|p: PiesenV| vyhovuje(p, self.search@)),
                i <= all.len(),
                obsah_odkazov(r@) == s.take(i as int).filter(pred),
            decreases all.len() - i,
        {
            let p = all[i];
            proof {
                assert(s.take(i + 1) =~= s.take(i as int).push(s[i as int]));
                s.take(i as int).lemma_filter_push(s[i as int], pred);
                assert(s[i as int] == p@);
            }
            let riadok = na_male(p.format_song().as_str());
            if obsahuje(riadok.as_str(), hladane.as_str()) {
                r.push(p);
                assert(obsah_odkazov(r@) =~= s.take(i as int).filter(pred).push(p@));
            }
            i = i + 1;
        }
        assert(s.take(all.len() as int) =~= s);
        r
    }

    /// Vytvorí strom položiek podľa typu piesní a JKS podtypov (z výsledku hľadania).
    pub fn build_tree(&self) -> (r: Strom)
        requires
            maju_nazov(self.song_manager@),
        ensures
            strom_pre(r, vysledok_hladania(self.song_manager@, self.search@)),
    {
        let piesne = self.search_get_formated();
        let ghost s = obsah_odkazov(piesne@);
        proof {
            assert forall|i: int| 0 <= i < s.len() implies (#[trigger] s[i]).strofy.len() > 0 by {
                if self.search@.len() > 0 {
                    let pred = |p: PiesenV| vyhovuje(p, self.search@);
                    self.song_manager@.lemma_filter_contains_rev(pred, s[i]);
                }
            }
        }
        let typy = vec![
            TypPiesne::AntifonaSurin,
            TypPiesne::Antifona,
            TypPiesne::Taize,
            TypPiesne::Mladeznicka,
            TypPiesne::Hymna,
            TypPiesne::Zalm,
            TypPiesne::Responz,
        ];
        assert(typy@ =~= ne_jks_typy());
        let mut priecinky: Vec<Priecinok> = Vec::new();
        let mut i: usize = 0;
        let ghost predt = |t: TypPiesne| piesne_typu(s, t).len() > 0;
        assert(typy@.take(0) =~= Seq::<TypPiesne>::empty());
        while i < typy.len()
            invariant
                s == obsah_odkazov(piesne@),
                maju_nazov(s),
                typy@ == ne_jks_typy(),
                predt == (|t: TypPiesne| piesne_typu(s, t).len() > 0),
                i <= typy.len(),
                priecinky@.len() == typy@.take(i as int).filter(predt).len(),
                forall|j: int|
                    0 <= j < priecinky@.len() ==> {
                        let t = typy@.take(i as int).filter(predt)[j];
                        &&& (#[trigger] priecinky@[j]).id == TreeId::FolderTyp(t)
                        &&& priecinky@[j].nazov@ == nazov_typu(t)
                        &&& listy_su(priecinky@[j].piesne@, piesne_typu(s, t))
                    },
            decreases typy.len() - i,
        {
            let t = typy[i];
            let ghost f0 = typy@.take(i as int).filter(predt);
            proof {
                assert(typy@.take(i + 1) =~= typy@.take(i as int).push(t));
                typy@.take(i as int).lemma_filter_push(t, predt);
            }
            let listy = listy_typu(&piesne, t);
            if listy.len() > 0 {
                let nazov = crate::text::vlastny(t.nazov());
                priecinky.push(Priecinok { id: TreeId::FolderTyp(t), nazov, piesne: listy });
                proof {
                    let f1 = typy@.take(i + 1).filter(predt);
                    assert(f1 == f0.push(t));
                    assert forall|j: int| 0 <= j < priecinky@.len() implies {
                        let tt = f1[j];
                        &&& (#[trigger] priecinky@[j]).id == TreeId::FolderTyp(tt)
                        &&& priecinky@[j].nazov@ == nazov_typu(tt)
                        &&& listy_su(priecinky@[j].piesne@, piesne_typu(s, tt))
                    } by {
                        if j < f0.len() {
                            assert(f1[j] == f0[j]);
                        }
                    }
                }
            } else {
                proof {
                    let f1 = typy@.take(i + 1).filter(predt);
                    assert(f1 == f0);
                }
            }
            i = i + 1;
        }
        assert(typy@.take(typy@.len() as int) =~= typy@);
        let jtypy = vec![
            JKSTypPiesne::Advent,
            JKSTypPiesne::Vianoce,
            JKSTypPiesne::KNajsvMenuJezisovmu,
            JKSTypPiesne::Post,
            JKSTypPiesne::VelkaNoc,
            JKSTypPiesne::NaneboVstupeniePana,
            JKSTypPiesne::NaDuchaSvateho,
            JKSTypPiesne::NaNajsvatejsiuTrojicu,
            JKSTypPiesne::NaBozieTelo,
            JKSTypPiesne::KSrdcuJezisovmu,
            JKSTypPiesne::KSvatejOmsi,
            JKSTypPiesne::KNajsvaSviatostiOltarnej,
            JKSTypPiesne::Litanie,
            JKSTypPiesne::AntifonaKPM,
            JKSTypPiesne::KPanneMarii,
            JKSTypPiesne::KSvatym,
            JKSTypPiesne::ZaZomrelych,
            JKSTypPiesne::Kajuce,
            JKSTypPiesne::PiesnePrilezitostne,
            JKSTypPiesne::PredPozehnanim,
            JKSTypPiesne::Ofertorium,
        ];
        assert(jtypy@ =~= jks_typy());
        let mut jks: Vec<Priecinok> = Vec::new();
        let mut k: usize = 0;
        let ghost predj = |t: JKSTypPiesne| piesne_typu(s, TypPiesne::JKS(t)).len() > 0;
        assert(jtypy@.take(0) =~= Seq::<JKSTypPiesne>::empty());
        while k < jtypy.len()
            invariant
                s == obsah_odkazov(piesne@),
                maju_nazov(s),
                jtypy@ == jks_typy(),
                predj == (|t: JKSTypPiesne| piesne_typu(s, TypPiesne::JKS(t)).len() > 0),
                k <= jtypy.len(),
                jks@.len() == jtypy@.take(k as int).filter(predj).len(),
                forall|j: int|
                    0 <= j < jks@.len() ==> {
                        let t = jtypy@.take(k as int).filter(predj)[j];
                        &&& (#[trigger] jks@[j]).id == TreeId::FolderJks(t)
                        &&& jks@[j].nazov@ == nazov_jks(t)
                        &&& listy_su(jks@[j].piesne@, piesne_typu(s, TypPiesne::JKS(t)))
                    },
            decreases jtypy.len() - k,
        {
            let t = jtypy[k];
            let ghost f0 = jtypy@.take(k as int).filter(predj);
            proof {
                assert(jtypy@.take(k + 1) =~= jtypy@.take(k as int).push(t));
                jtypy@.take(k as int).lemma_filter_push(t, predj);
            }
            let listy = listy_typu(&piesne, TypPiesne::JKS(t));
            if listy.len() > 0 {
                let nazov = crate::text::vlastny(t.nazov());
                jks.push(Priecinok { id: TreeId::FolderJks(t), nazov, piesne: listy });
                proof {
                    let f1 = jtypy@.take(k + 1).filter(predj);
                    assert(f1 == f0.push(t));
                    assert forall|j: int| 0 <= j < jks@.len() implies {
                        let tt = f1[j];
                        &&& (#[trigger] jks@[j]).id == TreeId::FolderJks(tt)
                        &&& jks@[j].nazov@ == nazov_jks(tt)
                        &&& listy_su(jks@[j].piesne@, piesne_typu(s, TypPiesne::JKS(tt)))
                    } by {
                        if j < f0.len() {
                            assert(f1[j] == f0[j]);
                        }
                    }
                }
            } else {
                proof {
                    let f1 = jtypy@.take(k + 1).filter(predj);
                    assert(f1 == f0);
                }
            }
            k = k + 1;
        }
        assert(jtypy@.take(jtypy@.len() as int) =~= jtypy@);
        Strom { priecinky, jks }
    }
}

/// Posun dopredu a potom dozadu vráti výber na to isté miesto (ak bol platný).
pub proof fn zakon_dalsi_a_predosly(vybrany: usize, len: nat)
    requires
        vybrany < len,
        len <= usize::MAX,
    ensures
        predosly_index(dalsi_index(Some(vybrany), len), len) == Some(vybrany),
        dalsi_index(predosly_index(Some(vybrany), len), len) == Some(vybrany),
{
}

/// Po posune výberu v neprázdnom zozname je výber platný index
/// (posun dopredu vždy, posun dozadu ak bol predošlý výber platný alebo žiadny).
pub proof fn zakon_vyber_v_rozsahu(vybrany: Option<usize>, len: nat)
    requires
        len > 0,
        len <= usize::MAX,
        vybrany matches Some(i) ==> i < len,
    ensures
        dalsi_index(vybrany, len) matches Some(i) && i < len,
        predosly_index(vybrany, len) matches Some(i) && i < len,
{
}


/// Index typu v zozname ne-JKS typov.
proof fn lemma_ne_jks_typ(t: TypPiesne)
    requires
        !(t is JKS),
    ensures
        ne_jks_typy().contains(t),
{
    let v = ne_jks_typy();
    let i: int = match t {
        TypPiesne::AntifonaSurin => 0,
        TypPiesne::Antifona => 1,
        TypPiesne::Taize => 2,
        TypPiesne::Mladeznicka => 3,
        TypPiesne::Hymna => 4,
        TypPiesne::Zalm => 5,
        TypPiesne::Responz => 6,
        TypPiesne::JKS(_) => 0,
    };
    assert(v[i] == t);
}

/// Index podtypu v zozname JKS podtypov.
proof fn lemma_jks_typ(t: JKSTypPiesne)
    ensures
        jks_typy().contains(t),
{
    let v = jks_typy();
    let i: int = match t {
        JKSTypPiesne::Advent => 0,
        JKSTypPiesne::Vianoce => 1,
        JKSTypPiesne::KNajsvMenuJezisovmu => 2,
        JKSTypPiesne::Post => 3,
        JKSTypPiesne::VelkaNoc => 4,
        JKSTypPiesne::NaneboVstupeniePana => 5,
        JKSTypPiesne::NaDuchaSvateho => 6,
        JKSTypPiesne::NaNajsvatejsiuTrojicu => 7,
        JKSTypPiesne::NaBozieTelo => 8,
        JKSTypPiesne::KSrdcuJezisovmu => 9,
        JKSTypPiesne::KSvatejOmsi => 10,
        JKSTypPiesne::KNajsvaSviatostiOltarnej => 11,
        JKSTypPiesne::Litanie => 12,
        JKSTypPiesne::AntifonaKPM => 13,
        JKSTypPiesne::KPanneMarii => 14,
        JKSTypPiesne::KSvatym => 15,
        JKSTypPiesne::ZaZomrelych => 16,
        JKSTypPiesne::Kajuce => 17,
        JKSTypPiesne::PiesnePrilezitostne => 18,
        JKSTypPiesne::PredPozehnanim => 19,
        JKSTypPiesne::Ofertorium => 20,
    };
    assert(v[i] == t);
}

/// Pesnička je v priečinku `p` ako list so svojím typom a číslom.
pub open spec fn list_v_priecinku(p: Priecinok, x: PiesenV) -> bool {
    exists|b: int|
        0 <= b < p.piesne@.len() && (#[trigger] p.piesne@[b]).id == TreeId::Song(
            x.typ_pesnicky,
            x.id,
        )
}

/// Každá pesnička, ktorú strom zobrazuje, je v ňom: ne-JKS pesnička v priečinku svojho typu,
/// JKS pesnička v podpriečinku svojho podtypu, ako list so svojím typom a číslom.
pub proof fn zakon_kazda_piesen_v_strome(r: Strom, s: Seq<PiesenV>, i: int)
    requires
        strom_pre(r, s),
        0 <= i < s.len(),
    ensures
        match s[i].typ_pesnicky {
            TypPiesne::JKS(t) => exists|a: int|
                0 <= a < r.jks@.len() && (#[trigger] r.jks@[a]).id == TreeId::FolderJks(t)
                    && list_v_priecinku(r.jks@[a], s[i]),
            t => exists|a: int|
                0 <= a < r.priecinky@.len() && (#[trigger] r.priecinky@[a]).id == TreeId::FolderTyp(t)
                    && list_v_priecinku(r.priecinky@[a], s[i]),
        },
{
    let x = s[i];
    let typ = x.typ_pesnicky;
    let pf = piesne_typu(s, typ);
    s.lemma_filter_contains(|p: PiesenV| p.typ_pesnicky == typ, i);
    let b = choose|b: int| 0 <= b < pf.len() && pf[b] == x;
    match typ {
        TypPiesne::JKS(t) => {
            lemma_jks_typ(t);
            let q = |u: JKSTypPiesne| piesne_typu(s, TypPiesne::JKS(u)).len() > 0;
            let j = choose|j: int| 0 <= j < jks_typy().len() && jks_typy()[j] == t;
            jks_typy().lemma_filter_contains(q, j);
            let f = typy_jks_priecinkov(s);
            let a = choose|a: int| 0 <= a < f.len() && f[a] == t;
            assert(r.jks@[a].id == TreeId::FolderJks(t));
            assert(listy_su(r.jks@[a].piesne@, pf));
            assert(r.jks@[a].piesne@[b].id == TreeId::Song(typ, x.id));
            assert(list_v_priecinku(r.jks@[a], x));
        },
        _ => {
            lemma_ne_jks_typ(typ);
            let q = |u: TypPiesne| piesne_typu(s, u).len() > 0;
            let j = choose|j: int| 0 <= j < ne_jks_typy().len() && ne_jks_typy()[j] == typ;
            ne_jks_typy().lemma_filter_contains(q, j);
            let f = typy_priecinkov(s);
            let a = choose|a: int| 0 <= a < f.len() && f[a] == typ;
            assert(r.priecinky@[a].id == TreeId::FolderTyp(typ));
            assert(listy_su(r.priecinky@[a].piesne@, pf));
            assert(r.priecinky@[a].piesne@[b].id == TreeId::Song(typ, x.id));
            assert(list_v_priecinku(r.priecinky@[a], x));
        },
    }
}

} // verus!
