//! Nahrávanie vybraných piesní do zariadenia pred premietaním: poradie zápisov na port
//! a ako ich výsledok určuje ďalší zápis. Samotné zápisy robí aplikácia.
use vstd::prelude::*;
use crate::app::{spravy_strofy, spravy_strofy_spec};
use crate::library_jks::{PiesenV, SongManager, StrofaV};
use crate::seial_comunikator::{stav_po, Prikaz, StavPremietania};

verus! {

/// Jeden zápis na port: príkaz (mení stav zariadenia) alebo textová správa.
#[derive(Debug)]
pub enum Zapis {
    Prikaz(Prikaz),
    Text(String),
}

/// Abstraktný obsah zápisu.
pub ghost enum ZapisV {
    Prikaz(Prikaz),
    Text(Seq<char>),
}

impl View for Zapis {
    type V = ZapisV;

    open spec fn view(&self) -> ZapisV {
        match self {
            Zapis::Prikaz(p) => ZapisV::Prikaz(*p),
            Zapis::Text(t) => ZapisV::Text(t@),
        }
    }
}

/// Obsah zoznamu zápisov.
pub open spec fn obsah_zapisov(s: Seq<Zapis>) -> Seq<ZapisV> {
    s.map_values(|z: Zapis| z@)
}

/// Textové správy ako zápisy.
pub open spec fn texty(m: Seq<Seq<char>>) -> Seq<ZapisV> {
    m.map_values(|t: Seq<char>| ZapisV::Text(t))
}

/// Správy všetkých strof pesničky v poradí.
pub open spec fn zapisy_strof(s: Seq<StrofaV>) -> Seq<ZapisV>
    decreases s.len(),
{
    if s.len() == 0 {
        Seq::empty()
    } else {
        zapisy_strof(s.drop_last()) + texty(
            spravy_strofy_spec(s.last().cislo_strofy, s.last().text),
        )
    }
}

/// Zápisy piesní: pre `i`-tu pesničku príkaz s jej poradím a potom správy jej strof.
pub open spec fn zapisy_piesni(p: Seq<PiesenV>) -> Seq<ZapisV>
    decreases p.len(),
{
    if p.len() == 0 {
        Seq::empty()
    } else {
        zapisy_piesni(p.drop_last()) + seq![ZapisV::Prikaz(Prikaz::PosliPiesen((p.len() - 1) as i32))]
            + zapisy_strof(p.last().strofy)
    }
}

/// Celé nahrávanie: piesne, spustenie premietania a prepnutie na prvú slohu prvej piesne.
pub open spec fn plan_nahravania(p: Seq<PiesenV>) -> Seq<ZapisV> {
    zapisy_piesni(p) + seq![
        ZapisV::Prikaz(Prikaz::SpustiPremietanie),
        ZapisV::Prikaz(Prikaz::PrepniNa { piesen: 0, sloha: 1 }),
    ]
}

/// Prvý príkaz od pozície `q` (hlavička ďalšej piesne alebo spustenie), alebo koniec.
pub open spec fn dalsi_prikaz(plan: Seq<ZapisV>, q: int) -> int
    decreases plan.len() - q,
{
    if q >= plan.len() {
        plan.len() as int
    } else if plan[q] is Prikaz {
        q
    } else {
        dalsi_prikaz(plan, q + 1)
    }
}

/// Stav zariadenia po zápise (príkaz ho mení aj vtedy, keď zápis zlyhá).
pub open spec fn stav_po_zapise(z: ZapisV, s: StavPremietania) -> StavPremietania {
    match z {
        ZapisV::Prikaz(c) => stav_po(s, c),
        ZapisV::Text(_) => s,
    }
}

/// Pozícia a stav po zápise na pozícii `p` s daným výsledkom: po zlyhaní hlavičky piesne
/// sa jej strofy preskočia, po zlyhaní spustenia sa už nič neposiela, inak sa ide ďalej.
pub open spec fn krok(plan: Seq<ZapisV>, p: int, s: StavPremietania, uspech: bool) -> (
    int,
    StavPremietania,
) {
    if p < 0 || p >= plan.len() {
        (p, s)
    } else {
        let st = stav_po_zapise(plan[p], s);
        match plan[p] {
            ZapisV::Prikaz(c) => if !uspech && c is PosliPiesen {
                (dalsi_prikaz(plan, p + 1), st)
            } else if !uspech && c is SpustiPremietanie {
                (plan.len() as int, st)
            } else {
                (p + 1, st)
            },
            ZapisV::Text(_) => (p + 1, st),
        }
    }
}

/// Priebeh nahrávania: zoznam zápisov, pozícia ďalšieho zápisu a stav zariadenia.
#[derive(Debug)]
pub struct Nahravanie {
    pub plan: Vec<Zapis>,
    pub pozicia: usize,
    pub stav: StavPremietania,
}

fn pridaj_strofu(plan: &mut Vec<Zapis>, cislo: i32, text: &str)
    ensures
        obsah_zapisov(final(plan)@) == obsah_zapisov(old(plan)@) + texty(
            spravy_strofy_spec(cislo, text@),
        ),
{
    let spravy = spravy_strofy(cislo, text);
    let ghost zac = obsah_zapisov(plan@);
    let ghost sp = spravy_strofy_spec(cislo, text@);
    let mut i: usize = 0;
    while i < spravy.len()
        invariant
            i <= spravy.len(),
            spravy@.len() == sp.len(),
            forall|t: int| 0 <= t < spravy@.len() ==> (#[trigger] spravy@[t])@ == sp[t],
            obsah_zapisov(plan@) == zac + texty(sp.take(i as int)),
        decreases spravy.len() - i,
    {
        let t = spravy[i].clone();
        let ghost pred = plan@;
        plan.push(Zapis::Text(t));
        proof {
            assert(sp.take(i + 1) =~= sp.take(i as int).push(sp[i as int]));
            assert(obsah_zapisov(plan@) =~= obsah_zapisov(pred).push(ZapisV::Text(sp[i as int])));
            assert(texty(sp.take(i + 1)) =~= texty(sp.take(i as int)).push(ZapisV::Text(sp[i as int])));
        }
        i = i + 1;
    }
    assert(sp.take(sp.len() as int) =~= sp);
}

fn je_text(z: &Zapis) -> (r: bool)
    ensures
        r == (z@ is Text),
{
    match z {
        Zapis::Text(_) => true,
        Zapis::Prikaz(_) => false,
    }
}

impl Nahravanie {
    /// Nahrávanie piesní zoznamu `m` do zariadenia v stave `stav`, od prvého zápisu.
    pub fn new(stav: StavPremietania, m: &SongManager) -> (r: Nahravanie)
        ensures
            obsah_zapisov(r.plan@) == plan_nahravania(m@),
            r.pozicia == 0,
            r.stav == stav,
    {
        let mut plan: Vec<Zapis> = Vec::new();
        let ghost s = m@;
        let mut i: usize = 0;
        assert(s.take(0) =~= Seq::<PiesenV>::empty());
        assert(obsah_zapisov(plan@) =~= Seq::<ZapisV>::empty());
        while i < m.piesne.len()
            invariant
                s == m@,
                i <= m.piesne.len(),
                obsah_zapisov(plan@) == zapisy_piesni(s.take(i as int)),
            decreases m.piesne.len() - i,
        {
            let p = &m.piesne[i];
            let ghost zac = obsah_zapisov(plan@);
            let hlavicka = Prikaz::PosliPiesen(#[verifier::truncate] (i as i32));
            plan.push(Zapis::Prikaz(hlavicka));
            let ghost po_hlavicke = obsah_zapisov(plan@);
            assert(po_hlavicke =~= zac.push(ZapisV::Prikaz(hlavicka)));
            let ghost strofy = p@.strofy;
            assert(strofy.take(0) =~= Seq::<StrofaV>::empty());
            assert(po_hlavicke + zapisy_strof(strofy.take(0)) =~= po_hlavicke);
            let mut j: usize = 0;
            while j < p.strofy.len()
                invariant
                    j <= p.strofy.len(),
                    strofy == p@.strofy,
                    obsah_zapisov(plan@) == po_hlavicke + zapisy_strof(strofy.take(j as int)),
                decreases p.strofy.len() - j,
            {
                let st = &p.strofy[j];
                let ghost pred = obsah_zapisov(plan@);
                pridaj_strofu(&mut plan, st.cislo_strofy, st.text.as_str());
                proof {
                    let t = strofy.take(j + 1);
                    assert(t.drop_last() =~= strofy.take(j as int));
                    assert(t.last() == st@);
                    assert(obsah_zapisov(plan@) =~= po_hlavicke + zapisy_strof(t));
                }
                j = j + 1;
            }
            proof {
                assert(strofy.take(strofy.len() as int) =~= strofy);
                let t = s.take(i + 1);
                assert(t.drop_last() =~= s.take(i as int));
                assert(t.last() == p@);
                assert(hlavicka == Prikaz::PosliPiesen((t.len() - 1) as i32));
                assert(obsah_zapisov(plan@) =~= zapisy_piesni(t));
            }
            i = i + 1;
        }
        let ghost pred = obsah_zapisov(plan@);
        plan.push(Zapis::Prikaz(Prikaz::SpustiPremietanie));
        plan.push(Zapis::Prikaz(Prikaz::PrepniNa { piesen: 0, sloha: 1 }));
        proof {
            assert(s.take(s.len() as int) =~= s);
            assert(obsah_zapisov(plan@) =~= plan_nahravania(s));
        }
        Nahravanie { plan, pozicia: 0, stav }
    }

    /// Zápis, ktorý je na rade (žiadny, ak je nahrávanie hotové).
    pub fn aktualny(&self) -> (r: Option<&Zapis>)
        ensures
            match r {
                Some(z) => self.pozicia < self.plan@.len() && z@ == obsah_zapisov(
                    self.plan@,
                )[self.pozicia as int],
                None => self.pozicia >= self.plan@.len(),
            },
    {
        if self.pozicia < self.plan.len() {
            Some(&self.plan[self.pozicia])
        } else {
            None
        }
    }

    /// Posun po zápise, ktorý bol na rade, podľa toho, či sa podaril.
    pub fn po_zapise(&mut self, uspech: bool)
        ensures
            final(self).plan@ == old(self).plan@,
            (final(self).pozicia as int, final(self).stav) == krok(
                obsah_zapisov(old(self).plan@),
                old(self).pozicia as int,
                old(self).stav,
                uspech,
            ),
    {
        let ghost plan = obsah_zapisov(self.plan@);
        if self.pozicia >= self.plan.len() {
            return;
        }
        let prikaz = match &self.plan[self.pozicia] {
            Zapis::Text(_) => {
                self.pozicia = self.pozicia + 1;
                return;
            },
            Zapis::Prikaz(c) => *c,
        };
        assert(plan[self.pozicia as int] == ZapisV::Prikaz(prikaz));
        self.stav.aplikuj(&prikaz);
        let hlavicka = match prikaz {
            Prikaz::PosliPiesen(_) => true,
            _ => false,
        };
        let spustenie = match prikaz {
            Prikaz::SpustiPremietanie => true,
            _ => false,
        };
        if !uspech && hlavicka {
            let mut q = self.pozicia + 1;
            while q < self.plan.len() && je_text(&self.plan[q])
                invariant
                    plan == obsah_zapisov(self.plan@),
                    q <= self.plan@.len(),
                    dalsi_prikaz(plan, q as int) == dalsi_prikaz(
                        plan,
                        old(self).pozicia + 1,
                    ),
                decreases self.plan@.len() - q,
            {
                q = q + 1;
            }
            self.pozicia = q;
        } else if !uspech && spustenie {
            self.pozicia = self.plan.len();
        } else {
            self.pozicia = self.pozicia + 1;
        }
    }
}

/// Stav zariadenia po celom nahrávaní od pozície `p`, ak sa každý zápis podarí.
pub open spec fn stav_bez_chyb(plan: Seq<ZapisV>, p: int, s: StavPremietania) -> StavPremietania
    decreases plan.len() - p,
{
    if p < 0 || p >= plan.len() {
        s
    } else {
        stav_bez_chyb(plan, p + 1, stav_po_zapise(plan[p], s))
    }
}

/// Keď sa zápis podarí, nasleduje zápis hneď za ním: nahrávanie ide po poradí plánu.
pub proof fn zakon_po_poradi(plan: Seq<ZapisV>, p: int, s: StavPremietania)
    requires
        0 <= p < plan.len(),
    ensures
        krok(plan, p, s, true) == (p + 1, stav_po_zapise(plan[p], s)),
{
}

proof fn lemma_koniec_planu(plan: Seq<ZapisV>, p: int, s: StavPremietania)
    requires
        plan.len() >= 2,
        0 <= p <= plan.len() - 2,
        plan[plan.len() - 2] == ZapisV::Prikaz(Prikaz::SpustiPremietanie),
        plan[plan.len() - 1] == ZapisV::Prikaz(Prikaz::PrepniNa { piesen: 0, sloha: 1 }),
    ensures
        stav_bez_chyb(plan, p, s) == (StavPremietania {
            cislo_pesnicky: 0,
            cislo_slohy: 1,
            blackscreen: false,
            premietanie_bezi: true,
        }),
    decreases plan.len() - p,
{
    if p < plan.len() - 2 {
        lemma_koniec_planu(plan, p + 1, stav_po_zapise(plan[p], s));
    } else {
        let s1 = stav_po_zapise(plan[p], s);
        let s2 = stav_po_zapise(plan[p + 1], s1);
        assert(stav_bez_chyb(plan, p + 2, s2) == s2);
        assert(stav_bez_chyb(plan, p + 1, s1) == s2);
    }
}

/// Po úspešnom nahrávaní premietanie beží, obrazovka nie je zatmavená a zariadenie
/// ukazuje prvú slohu prvej piesne.
pub proof fn zakon_stav_po_nahravani(piesne: Seq<PiesenV>, s: StavPremietania)
    ensures
        stav_bez_chyb(plan_nahravania(piesne), 0, s) == (StavPremietania {
            cislo_pesnicky: 0,
            cislo_slohy: 1,
            blackscreen: false,
            premietanie_bezi: true,
        }),
{
    let plan = plan_nahravania(piesne);
    lemma_koniec_planu(plan, 0, s);
}

proof fn lemma_dalsi_prikaz(plan: Seq<ZapisV>, q: int)
    requires
        0 <= q <= plan.len(),
    ensures
        q <= dalsi_prikaz(plan, q) <= plan.len(),
        forall|j: int| q <= j < dalsi_prikaz(plan, q) ==> plan[j] is Text,
        dalsi_prikaz(plan, q) < plan.len() ==> plan[dalsi_prikaz(plan, q)] is Prikaz,
    decreases plan.len() - q,
{
    if q < plan.len() && !(plan[q] is Prikaz) {
        lemma_dalsi_prikaz(plan, q + 1);
    }
}

/// Keď zlyhá hlavička piesne, preskočia sa práve správy jej strof a pokračuje sa
/// ďalším príkazom (hlavičkou ďalšej piesne alebo spustením premietania).
pub proof fn zakon_chyba_hlavicky(plan: Seq<ZapisV>, p: int, s: StavPremietania, i: i32)
    requires
        0 <= p < plan.len(),
        plan[p] == ZapisV::Prikaz(Prikaz::PosliPiesen(i)),
    ensures
        ({
            let q = krok(plan, p, s, false).0;
            &&& p < q <= plan.len()
            &&& forall|j: int| p < j < q ==> plan[j] is Text
            &&& q < plan.len() ==> plan[q] is Prikaz
        }),
{
    lemma_dalsi_prikaz(plan, p + 1);
}

} // verus!
