//! Premietacie plátno: ktorá strofa sa zobrazuje a ako na ňu pôsobia klávesy.
//! Okno a kreslenie textu obsluhuje aplikácia.
use vstd::prelude::*;
use crate::library_jks::{PiesenV, SongManager};

verus! {

/// Smer prechodu pri čiernej obrazovke.
#[derive(Debug, Clone, Copy, PartialEq, Eq, Structural)]
pub enum Direction {
    /// Prechod na nasledujúcu pesničku.
    Next,
    /// Prechod na predchádzajúcu pesničku.
    Previous,
}

/// Stav medzi zobrazením textu a čiernou obrazovkou.
#[derive(Debug, Clone, Copy, PartialEq, Eq, Structural)]
pub enum Transition {
    /// Zobrazuje sa text aktuálnej strofy.
    Viewing,
    /// Čierna obrazovka pri prechode medzi pesničkami.
    BlackScreen { direction: Direction },
}

/// Klávesy stlačené v jednom snímku.
#[derive(Debug, Clone, Copy, PartialEq, Eq, Structural)]
pub struct StlaceneKlavesy {
    pub escape: bool,
    pub space: bool,
    pub right: bool,
    pub left: bool,
    pub up: bool,
    pub down: bool,
}

/// Aplikácia na zobrazenie piesní na projektore.
#[derive(Debug)]
pub struct SongScreenApp {
    manager: SongManager,
    song_idx: usize,
    strofa_idx: usize,
    space_pressed: bool,
    transition: Transition,
}

/// Stav plátna okrem piesní.
pub ghost struct StavPlatna {
    pub song_idx: usize,
    pub strofa_idx: usize,
    pub space_pressed: bool,
    pub transition: Transition,
}

/// Index poslednej strofy pesničky s daným počtom strof (bez názvu): strofa 0 je názov,
/// teda posledná strofa má index `pocet_strof` (záporný počet znamená názov).
pub open spec fn posledna_strofa(pocet_strof: i32) -> usize {
    if pocet_strof > 0 {
        pocet_strof as usize
    } else {
        0
    }
}

/// Stav po spracovaní klávesov jedného snímku a či sa má aplikácia ukončiť.
pub open spec fn po_klavesoch(s: StavPlatna, k: StlaceneKlavesy, p: Seq<PiesenV>) -> (
    StavPlatna,
    bool,
) {
    if k.escape {
        (s, true)
    } else if k.space {
        match s.transition {
            Transition::BlackScreen { .. } => (
                StavPlatna { transition: Transition::Viewing, space_pressed: false, ..s },
                false,
            ),
            Transition::Viewing => (
                StavPlatna {
                    transition: Transition::BlackScreen { direction: Direction::Next },
                    space_pressed: true,
                    ..s
                },
                false,
            ),
        }
    } else {
        match s.transition {
            Transition::Viewing => {
                if k.right {
                    if s.song_idx < p.len() && s.strofa_idx + 1 < p[s.song_idx as int].strofy.len() {
                        (StavPlatna { strofa_idx: (s.strofa_idx + 1) as usize, ..s }, false)
                    } else {
                        (
                            StavPlatna {
                                transition: Transition::BlackScreen { direction: Direction::Next },
                                ..s
                            },
                            false,
                        )
                    }
                } else if k.left {
                    if s.strofa_idx > 0 {
                        (StavPlatna { strofa_idx: (s.strofa_idx - 1) as usize, ..s }, false)
                    } else {
                        (
                            StavPlatna {
                                transition: Transition::BlackScreen {
                                    direction: Direction::Previous,
                                },
                                ..s
                            },
                            false,
                        )
                    }
                } else if k.up {
                    if s.song_idx + 1 < p.len() {
                        (
                            StavPlatna { song_idx: (s.song_idx + 1) as usize, strofa_idx: 0, ..s },
                            false,
                        )
                    } else {
                        (s, false)
                    }
                } else if k.down {
                    if s.song_idx > 0 {
                        (
                            StavPlatna { song_idx: (s.song_idx - 1) as usize, strofa_idx: 0, ..s },
                            false,
                        )
                    } else {
                        (s, false)
                    }
                } else {
                    (s, false)
                }
            },
            Transition::BlackScreen { .. } => {
                if s.space_pressed {
                    (s, false)
                } else {
                    let s1 = if k.right && s.song_idx + 1 < p.len() {
                        StavPlatna { song_idx: (s.song_idx + 1) as usize, strofa_idx: 0, ..s }
                    } else {
                        s
                    };
                    let s2 = if k.left && s1.song_idx > 0 {
                        let i = (s1.song_idx - 1) as usize;
                        StavPlatna {
                            song_idx: i,
                            strofa_idx: posledna_strofa(p[i as int].pocet_strof),
                            ..s1
                        }
                    } else {
                        s1
                    };
                    let zmena = (k.right && s.song_idx + 1 < p.len()) || (k.left && s1.song_idx
                        > 0);
                    if zmena {
                        (StavPlatna { transition: Transition::Viewing, ..s2 }, false)
                    } else {
                        (s2, false)
                    }
                }
            },
        }
    }
}

/// Text, ktorý plátno ukazuje: aktuálna strofa, alebo nič pri čiernej obrazovke
/// či neexistujúcej strofe.
pub open spec fn text_na_platne(s: StavPlatna, p: Seq<PiesenV>) -> Seq<char> {
    match s.transition {
        Transition::BlackScreen { .. } => Seq::<char>::empty(),
        Transition::Viewing => if s.song_idx < p.len() && s.strofa_idx < p[s.song_idx as int].strofy.len() {
            p[s.song_idx as int].strofy[s.strofa_idx as int].text
        } else {
            Seq::<char>::empty()
        },
    }
}

impl SongScreenApp {
    /// Vybraná pesnička je platná (alebo je prvá) a index strofy sa dá zvýšiť.
    #[verifier::type_invariant]
    spec fn platny(self) -> bool {
        &&& (self.song_idx == 0 || self.song_idx < self.manager@.len())
        &&& self.strofa_idx < usize::MAX
    }

    /// Stav plátna okrem piesní.
    pub closed spec fn stav(&self) -> StavPlatna {
        StavPlatna {
            song_idx: self.song_idx,
            strofa_idx: self.strofa_idx,
            space_pressed: self.space_pressed,
            transition: self.transition,
        }
    }

    /// Premietané pesničky.
    pub closed spec fn piesne(&self) -> Seq<PiesenV> {
        self.manager@
    }

    /// Index premietanej pesničky.
    pub fn song_idx(&self) -> (r: usize)
        ensures
            r == self.stav().song_idx,
    {
        self.song_idx
    }

    /// Index zobrazenej strofy.
    pub fn strofa_idx(&self) -> (r: usize)
        ensures
            r == self.stav().strofa_idx,
    {
        self.strofa_idx
    }

    /// Či je čierna obrazovka zapnutá medzerníkom.
    pub fn space_pressed(&self) -> (r: bool)
        ensures
            r == self.stav().space_pressed,
    {
        self.space_pressed
    }

    /// Zobrazenie textu alebo čierna obrazovka.
    pub fn transition(&self) -> (r: Transition)
        ensures
            r == self.stav().transition,
    {
        self.transition
    }

    /// Vytvorí novú aplikáciu so zadaným správcom piesní.
    pub fn new(manager: SongManager) -> (r: Self)
        ensures
            r.piesne() == manager@,
            r.stav() == (StavPlatna {
                song_idx: 0,
                strofa_idx: 0,
                space_pressed: false,
                transition: Transition::Viewing,
            }),
    {
        SongScreenApp {
            manager,
            song_idx: 0,
            strofa_idx: 0,
            transition: Transition::Viewing,
            space_pressed: false,
        }
    }

    /// Text aktuálnej strofy alebo prázdny reťazec pri čiernej obrazovke.
    pub fn current_text(&self) -> (r: &str)
        ensures
            r@ == text_na_platne(self.stav(), self.piesne()),
    {
        let prazdny = "";
        proof {
            reveal_strlit("");
        }
        match self.transition {
            Transition::BlackScreen { .. } => prazdny,
            Transition::Viewing => {
                if self.song_idx < self.manager.piesne.len() {
                    let s = &self.manager.piesne[self.song_idx];
                    if self.strofa_idx < s.strofy.len() {
                        return s.strofy[self.strofa_idx].text.as_str();
                    }
                }
                prazdny
            },
        }
    }

    /// Spracuje klávesy stlačené v jednom snímku a zmení stav zobrazenia;
    /// vráti `true`, ak sa má aplikácia ukončiť (Escape).
    pub fn logic(&mut self, k: StlaceneKlavesy) -> (koniec: bool)
        ensures
            (final(self).stav(), koniec) == po_klavesoch(old(self).stav(), k, old(self).piesne()),
            final(self).piesne() == old(self).piesne(),
    {
        proof {
            use_type_invariant(&*self);
        }
        assert(self.manager@.len() == self.manager.piesne@.len());
        assert(self.song_idx == 0 || self.song_idx < self.manager.piesne.len());
        if k.escape {
            return true;
        }
        if k.space {
            match self.transition {
                Transition::BlackScreen { .. } => {
                    self.transition = Transition::Viewing;
                    self.space_pressed = false;
                },
                Transition::Viewing => {
                    self.transition = Transition::BlackScreen { direction: Direction::Next };
                    self.space_pressed = true;
                },
            }
            return false;
        }
        if let Transition::Viewing = self.transition {
            if k.right {
                if self.song_idx < self.manager.piesne.len() {
                    if self.strofa_idx + 1 < self.manager.piesne[self.song_idx].strofy.len() {
                        self.strofa_idx = self.strofa_idx + 1;
                        return false;
                    }
                }
                self.transition = Transition::BlackScreen { direction: Direction::Next };
                return false;
            }
            if k.left {
                if self.strofa_idx > 0 {
                    self.strofa_idx = self.strofa_idx - 1;
                    return false;
                }
                self.transition = Transition::BlackScreen { direction: Direction::Previous };
                return false;
            }
            if k.up {
                if self.song_idx + 1 < self.manager.piesne.len() {
                    self.song_idx = self.song_idx + 1;
                    self.strofa_idx = 0;
                }
                return false;
            }
            if k.down {
                if self.song_idx > 0 {
                    self.song_idx = self.song_idx - 1;
                    self.strofa_idx = 0;
                }
                return false;
            }
            return false;
        }
        if self.space_pressed {
            return false;
        }
        let mut changed = false;
        if k.right {
            if self.song_idx + 1 < self.manager.piesne.len() {
                self.song_idx = self.song_idx + 1;
                self.strofa_idx = 0;
                changed = true;
            }
        }
        if k.left {
            if self.song_idx > 0 {
                self.song_idx = self.song_idx - 1;
                let pocet = self.manager.piesne[self.song_idx].pocet_strof;
                self.strofa_idx = if pocet > 0 {
                    pocet as usize
                } else {
                    0
                };
                changed = true;
            }
        }
        if changed {
            self.transition = Transition::Viewing;
        }
        false
    }
}

/// Medzerník dvakrát za sebou vráti plátno do pôvodného stavu
/// (ručné zatmavenie a odtmavenie nemení pieseň ani strofu).
pub proof fn zakon_medzernik_dvakrat(s: StavPlatna, p: Seq<PiesenV>)
    requires
        s.transition == Transition::Viewing,
        !s.space_pressed,
    ensures
        ({
            let k = StlaceneKlavesy {
                escape: false,
                space: true,
                right: false,
                left: false,
                up: false,
                down: false,
            };
            po_klavesoch(po_klavesoch(s, k, p).0, k, p).0 == s
        }),
{
}

/// Pri ručnom zatmavení šípky nič nemenia.
pub proof fn zakon_zatmavene_sipky(s: StavPlatna, k: StlaceneKlavesy, p: Seq<PiesenV>)
    requires
        s.transition != Transition::Viewing,
        s.space_pressed,
        !k.escape,
        !k.space,
    ensures
        po_klavesoch(s, k, p) == (s, false),
{
}

/// V režime zobrazenia šípka doprava a potom doľava vráti tú istú strofu,
/// ak nasledujúca strofa existuje.
pub proof fn zakon_strofa_tam_a_spat(s: StavPlatna, p: Seq<PiesenV>)
    requires
        s.transition == Transition::Viewing,
        s.song_idx < p.len(),
        s.strofa_idx < usize::MAX,
        s.strofa_idx + 1 < p[s.song_idx as int].strofy.len(),
    ensures
        ({
            let vpravo = StlaceneKlavesy {
                escape: false,
                space: false,
                right: true,
                left: false,
                up: false,
                down: false,
            };
            let vlavo = StlaceneKlavesy {
                escape: false,
                space: false,
                right: false,
                left: true,
                up: false,
                down: false,
            };
            po_klavesoch(po_klavesoch(s, vpravo, p).0, vlavo, p).0 == s
        }),
{
}


/// Šípka doľava na automatickej čiernej obrazovke ukáže poslednú strofu predchádzajúcej
/// pesničky (ak jej počet strof zodpovedá zoznamu strof).
pub proof fn zakon_spat_na_poslednu_strofu(s: StavPlatna, p: Seq<PiesenV>)
    requires
        s.transition != Transition::Viewing,
        !s.space_pressed,
        0 < s.song_idx,
        s.song_idx - 1 < p.len(),
        p[s.song_idx - 1].strofy.len() > 0,
        p[s.song_idx - 1].pocet_strof == p[s.song_idx - 1].strofy.len() - 1,
    ensures
        ({
            let vlavo = StlaceneKlavesy {
                escape: false,
                space: false,
                right: false,
                left: true,
                up: false,
                down: false,
            };
            let (n, koniec) = po_klavesoch(s, vlavo, p);
            let q = p[s.song_idx - 1];
            &&& !koniec
            &&& n.song_idx == s.song_idx - 1
            &&& n.strofa_idx == q.strofy.len() - 1
            &&& n.transition == Transition::Viewing
            &&& text_na_platne(n, p) == q.strofy.last().text
        }),
{
}


/// Len jedna šípka (a nič iné) stlačená v snímku.
pub open spec fn len_sipka(hore: bool, dole: bool, vpravo: bool, vlavo: bool) -> StlaceneKlavesy {
    StlaceneKlavesy { escape: false, space: false, right: vpravo, left: vlavo, up: hore, down: dole }
}

/// Pri zobrazení textu šípka nadol ukáže predchádzajúcu pesničku od jej prvej strofy
/// (názvu), nech bola zobrazená ktorákoľvek strofa; na prvej pesničke nič nemení.
pub proof fn zakon_dole_predosla_piesen(s: StavPlatna, p: Seq<PiesenV>)
    requires
        s.transition == Transition::Viewing,
    ensures
        ({
            let (n, koniec) = po_klavesoch(s, len_sipka(false, true, false, false), p);
            &&& !koniec
            &&& s.song_idx > 0 ==> n == (StavPlatna {
                song_idx: (s.song_idx - 1) as usize,
                strofa_idx: 0,
                space_pressed: s.space_pressed,
                transition: Transition::Viewing,
            })
            &&& s.song_idx == 0 ==> n == s
        }),
{
}

/// Pri zobrazení textu šípka nahor ukáže nasledujúcu pesničku od jej prvej strofy
/// (názvu); na poslednej pesničke nič nemení.
pub proof fn zakon_hore_dalsia_piesen(s: StavPlatna, p: Seq<PiesenV>)
    requires
        s.transition == Transition::Viewing,
    ensures
        ({
            let (n, koniec) = po_klavesoch(s, len_sipka(true, false, false, false), p);
            &&& !koniec
            &&& s.song_idx + 1 < p.len() ==> n == (StavPlatna {
                song_idx: (s.song_idx + 1) as usize,
                strofa_idx: 0,
                space_pressed: s.space_pressed,
                transition: Transition::Viewing,
            })
            &&& s.song_idx + 1 >= p.len() ==> n == s
        }),
{
}

/// Šípka nahor a potom nadol vráti predchádzajúcu pesničku, zobrazenú od názvu.
pub proof fn zakon_hore_a_dole(s: StavPlatna, p: Seq<PiesenV>)
    requires
        s.transition == Transition::Viewing,
        s.song_idx + 1 < p.len(),
        p.len() <= usize::MAX,
    ensures
        ({
            let n1 = po_klavesoch(s, len_sipka(true, false, false, false), p).0;
            let n2 = po_klavesoch(n1, len_sipka(false, true, false, false), p).0;
            n2 == StavPlatna { strofa_idx: 0, ..s }
        }),
{
}

/// Pri zobrazení textu šípka doprava ukáže nasledujúcu strofu tej istej pesničky,
/// ak existuje, inak zapne čiernu obrazovku pred nasledujúcou pesničkou.
pub proof fn zakon_vpravo_dalsia_strofa(s: StavPlatna, p: Seq<PiesenV>)
    requires
        s.transition == Transition::Viewing,
        s.strofa_idx < usize::MAX,
    ensures
        ({
            let (n, koniec) = po_klavesoch(s, len_sipka(false, false, true, false), p);
            &&& !koniec
            &&& n.song_idx == s.song_idx
            &&& n.space_pressed == s.space_pressed
            &&& if s.song_idx < p.len() && s.strofa_idx + 1 < p[s.song_idx as int].strofy.len() {
                n.strofa_idx == s.strofa_idx + 1 && n.transition == Transition::Viewing
            } else {
                n.strofa_idx == s.strofa_idx && n.transition == (Transition::BlackScreen {
                    direction: Direction::Next,
                })
            }
        }),
{
}

/// Šípka doprava na automatickej čiernej obrazovke ukáže nasledujúcu pesničku od názvu;
/// za poslednou pesničkou ostane čierna obrazovka.
pub proof fn zakon_cierna_vpravo(s: StavPlatna, p: Seq<PiesenV>)
    requires
        s.transition != Transition::Viewing,
        !s.space_pressed,
        p.len() <= usize::MAX,
    ensures
        ({
            let (n, koniec) = po_klavesoch(s, len_sipka(false, false, true, false), p);
            &&& !koniec
            &&& s.song_idx + 1 < p.len() ==> n == (StavPlatna {
                song_idx: (s.song_idx + 1) as usize,
                strofa_idx: 0,
                space_pressed: false,
                transition: Transition::Viewing,
            })
            &&& s.song_idx + 1 >= p.len() ==> n == s
        }),
{
}

/// Escape vždy ukončí aplikáciu a stav nemení.
pub proof fn zakon_escape(s: StavPlatna, k: StlaceneKlavesy, p: Seq<PiesenV>)
    requires
        k.escape,
    ensures
        po_klavesoch(s, k, p) == (s, true),
{
}

} // verus!
