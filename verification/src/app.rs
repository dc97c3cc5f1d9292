//! Rozhodovanie hlavnej aplikácie: zameranie panelov, reakcia na klávesy,
//! výber piesní a riadenie premietania. Kreslenie, sériový port, databázu
//! a editor obsluhuje aplikácia okolo knižnice.
use vstd::prelude::*;
use crate::library_jks::{PiesenV, SongJks, SongManager, prva_zhoda, ziadna_zhoda, stabilne_zoradene};
use crate::seial_comunikator::{Prikaz, StavPremietania, stav_po, kusy, pridaj_znaky};
use crate::text::{cislo_na_znaky, dec_int, retazec, znaky};
use crate::song_lister::{SongLister, SongListerList, TreeId, VyberZoznamu};
use crate::text::vlastny;
use crate::typ::TypPiesne;
use crate::nahravanie::{obsah_zapisov, plan_nahravania, Nahravanie};

verus! {

/// Panel, na ktorý smeruje vstup z klávesnice.
#[derive(Debug, Clone, Copy, PartialEq, Eq, Structural)]
pub enum FocusedWidget {
    Left,
    Right,
    Search,
}

/// Udalosti aplikácie.
#[derive(Debug, Clone, Copy, PartialEq, Eq, Structural)]
pub enum AppEvent {
    Quit,
    IncrementWidget,
    DecrementWidget,
    IncrementSong,
    DecrementSong,
    SelectSong,
    RemoveSelectedSong,
    EditSong,
    AddSong,
    DeleteSong,
    PresentationStart,
    PresentationStop,
    PresentationToggleDark,
    NextSloha,
    PrevSloha,
    NextPiesen,
    PrevPiesen,
    SendCurrentSong,
    ConnectSerial,
    ExpandFolder,
    CollapseFolder,
}

/// Stlačená klávesa (tie, na ktoré aplikácia reaguje).
#[derive(Debug, Clone, Copy, PartialEq, Eq, Structural)]
pub enum Klaves {
    Up,
    Down,
    Left,
    Right,
    Char(char),
    End,
    Esc,
    Tab,
    BackTab,
    Enter,
    Delete,
    Home,
    Backspace,
    Ine,
}

/// Pohyb v strome piesní, ktorý má vykonať zobrazovacia vrstva.
#[derive(Debug, Clone, Copy, PartialEq, Eq, Structural)]
pub enum PohybStromu {
    Ziadny,
    Dole,
    Hore,
    Rozbal,
    Zbal,
}

/// Stav aplikácie, o ktorom rozhoduje knižnica.
/// `komunikator` je stav premietania pripojeného zariadenia (`None`, kým nie je pripojené
/// alebo kým ho drží prebiehajúce odosielanie piesní).
#[derive(Debug)]
pub struct App {
    pub running: bool,
    pub focusing_widget: FocusedWidget,
    pub song_lister: SongLister,
    pub selected_song_lister: SongListerList,
    pub komunikator: Option<StavPremietania>,
    pub loading: bool,
}

/// Výber v pravom zozname a stav premietania.
pub ghost struct Navigacia {
    pub vybrany: Option<usize>,
    pub komunikator: Option<StavPremietania>,
}

/// Prepnutie na pieseň `d`, slohu `sloha`: výber sa posunie, a ak je zariadenie pripojené,
/// jeho stav sa zmení a príkaz sa odošle.
pub open spec fn prepni(n: Navigacia, d: int, sloha: i32) -> (Navigacia, Option<Prikaz>) {
    let p = Prikaz::PrepniNa { piesen: d as i32, sloha };
    match n.komunikator {
        Some(k) => (
            Navigacia { vybrany: Some(d as usize), komunikator: Some(stav_po(k, p)) },
            Some(p),
        ),
        None => (Navigacia { vybrany: Some(d as usize), komunikator: None }, None),
    }
}

/// Výsledok `next_piesen`.
pub open spec fn po_next_piesen(n: Navigacia, len: nat) -> (Navigacia, Option<Prikaz>) {
    let idx = match n.vybrany {
        Some(i) => i as int,
        None => 0,
    };
    if idx + 1 >= len {
        (n, None)
    } else {
        prepni(n, idx + 1, 1)
    }
}

/// Výsledok `prev_piesen`.
pub open spec fn po_prev_piesen(n: Navigacia) -> (Navigacia, Option<Prikaz>) {
    let idx = match n.vybrany {
        Some(i) => i as int,
        None => 0,
    };
    if idx == 0 {
        (n, None)
    } else {
        prepni(n, idx - 1, 1)
    }
}

/// Posledná sloha piesne (strofa 0 je názov), aspoň 1.
pub open spec fn posledna_sloha(s: Seq<PiesenV>, d: int) -> i32 {
    if 0 <= d < s.len() {
        let x = (if s[d].strofy.len() > 0 {
            (s[d].strofy.len() - 1) as usize
        } else {
            0usize
        }) as i32;
        if x > 1 {
            x
        } else {
            1
        }
    } else {
        1
    }
}

/// Výsledok prechodu na poslednú slohu predchádzajúcej piesne.
pub open spec fn po_prev_piesen_posledna_sloha(n: Navigacia, s: Seq<PiesenV>) -> (
    Navigacia,
    Option<Prikaz>,
) {
    let idx = match n.vybrany {
        Some(i) => i as int,
        None => 0,
    };
    if idx == 0 {
        (n, None)
    } else {
        prepni(n, idx - 1, posledna_sloha(s, idx - 1))
    }
}

/// Počet slôh aktuálnej piesne (bez názvu); 0, ak nie je pripojené zariadenie alebo pieseň chýba.
pub open spec fn pocet_sloh(k: Option<StavPremietania>, s: Seq<PiesenV>) -> nat {
    match k {
        None => 0,
        Some(st) => {
            let i = (st.cislo_pesnicky as usize) as int;
            if i < s.len() && s[i].strofy.len() > 0 {
                (s[i].strofy.len() - 1) as nat
            } else {
                0
            }
        },
    }
}

/// Výsledok `next_sloha`.
pub open spec fn po_next_sloha(n: Navigacia, s: Seq<PiesenV>) -> (Navigacia, Option<Prikaz>) {
    match n.komunikator {
        None => (n, None),
        Some(k) => if (k.cislo_slohy as usize) >= pocet_sloh(n.komunikator, s) {
            po_next_piesen(n, s.len())
        } else {
            let p = Prikaz::PrepniNa {
                piesen: k.cislo_pesnicky,
                sloha: (k.cislo_slohy + 1) as i32,
            };
            (Navigacia { vybrany: n.vybrany, komunikator: Some(stav_po(k, p)) }, Some(p))
        },
    }
}

/// Výsledok `prev_sloha`.
pub open spec fn po_prev_sloha(n: Navigacia, s: Seq<PiesenV>) -> (Navigacia, Option<Prikaz>) {
    match n.komunikator {
        None => (n, None),
        Some(k) => if k.cislo_slohy <= 1 {
            po_prev_piesen_posledna_sloha(n, s)
        } else {
            let p = Prikaz::PrepniNa {
                piesen: k.cislo_pesnicky,
                sloha: (k.cislo_slohy - 1) as i32,
            };
            (Navigacia { vybrany: n.vybrany, komunikator: Some(stav_po(k, p)) }, Some(p))
        },
    }
}

/// Pri vybranej piesni `i > 0` prejde `prev_piesen` na pieseň `i - 1`; ak je zariadenie
/// pripojené, odošle `PrepniNa { piesen: i - 1, sloha: 1 }` a zariadenie potom premieta
/// pieseň `i - 1` od prvej slohy, so zatmavením a behom premietania ako predtým.
pub proof fn zakon_prev_piesen(n: Navigacia, i: usize)
    requires
        n.vybrany == Some(i),
        i > 0,
    ensures
        po_prev_piesen(n).0.vybrany == Some((i - 1) as usize),
        n.komunikator is None ==> po_prev_piesen(n).1 is None && po_prev_piesen(n).0.komunikator is None,
        n.komunikator matches Some(k) ==> {
            &&& po_prev_piesen(n).1 == Some(Prikaz::PrepniNa { piesen: (i - 1) as i32, sloha: 1 })
            &&& po_prev_piesen(n).0.komunikator == Some(StavPremietania {
                cislo_pesnicky: (i - 1) as i32,
                cislo_slohy: 1,
                blackscreen: k.blackscreen,
                premietanie_bezi: k.premietanie_bezi,
            })
        },
{
}

/// Na prvej piesni (alebo bez výberu) `prev_piesen` nič nemení a nič neodošle.
pub proof fn zakon_prev_piesen_na_zaciatku(n: Navigacia)
    requires
        n.vybrany is None || n.vybrany == Some(0usize),
    ensures
        po_prev_piesen(n) == (n, Option::<Prikaz>::None),
{
}

/// Pri vybranej piesni `i`, za ktorou je v zozname ďalšia, prejde `next_piesen` na
/// pieseň `i + 1`; ak je zariadenie pripojené, odošle `PrepniNa { piesen: i + 1, sloha: 1 }`.
/// Na poslednej piesni nič nemení.
pub proof fn zakon_next_piesen(n: Navigacia, i: usize, len: nat)
    requires
        n.vybrany == Some(i),
    ensures
        i + 1 < len ==> po_next_piesen(n, len).0.vybrany == Some((i + 1) as usize),
        i + 1 < len ==> (n.komunikator matches Some(k) ==> {
            &&& po_next_piesen(n, len).1 == Some(Prikaz::PrepniNa { piesen: (i + 1) as i32, sloha: 1 })
            &&& po_next_piesen(n, len).0.komunikator == Some(StavPremietania {
                cislo_pesnicky: (i + 1) as i32,
                cislo_slohy: 1,
                blackscreen: k.blackscreen,
                premietanie_bezi: k.premietanie_bezi,
            })
        }),
        i + 1 < len ==> (n.komunikator is None ==> po_next_piesen(n, len).1 is None),
        i + 1 >= len ==> po_next_piesen(n, len) == (n, Option::<Prikaz>::None),
{
}

/// `next_piesen` a potom `prev_piesen` vráti výber na pôvodnú pieseň, a zariadenie
/// premieta tú pieseň od prvej slohy.
pub proof fn zakon_next_potom_prev(n: Navigacia, i: usize, len: nat)
    requires
        n.vybrany == Some(i),
        i + 1 < len,
        i < usize::MAX,
    ensures
        ({
            let (m1, r1) = po_next_piesen(n, len);
            let (m2, r2) = po_prev_piesen(m1);
            &&& m2.vybrany == n.vybrany
            &&& n.komunikator is Some ==> r2 == Some(Prikaz::PrepniNa { piesen: i as i32, sloha: 1 })
        }),
{
}

/// Vnútri piesne posunie `next_sloha` na nasledujúcu slohu tej istej piesne a `prev_sloha`
/// na predchádzajúcu; výber v zozname sa nemení.
pub proof fn zakon_sloha_v_piesni(n: Navigacia, s: Seq<PiesenV>, k: StavPremietania)
    requires
        n.komunikator == Some(k),
    ensures
        (0 <= k.cislo_slohy < i32::MAX && (k.cislo_slohy as int) < pocet_sloh(n.komunikator, s))
            ==> {
            &&& po_next_sloha(n, s).1 matches Some(Prikaz::PrepniNa { piesen, sloha })
                && piesen == k.cislo_pesnicky && sloha == k.cislo_slohy + 1
            &&& po_next_sloha(n, s).0.vybrany == n.vybrany
        },
        k.cislo_slohy > 1 ==> {
            &&& po_prev_sloha(n, s).1 matches Some(Prikaz::PrepniNa { piesen, sloha })
                && piesen == k.cislo_pesnicky && sloha == k.cislo_slohy - 1
            &&& po_prev_sloha(n, s).0.vybrany == n.vybrany
        },
{
    if 0 <= k.cislo_slohy {
        assert((k.cislo_slohy as usize) as int == k.cislo_slohy as int);
    }
}

/// Udalosti, ktoré vyšle stlačenie klávesy.
pub open spec fn udalosti_klavesy(premieta: bool, focus: FocusedWidget, k: Klaves) -> Seq<AppEvent> {
    if premieta {
        match k {
            Klaves::Up => seq![AppEvent::PrevSloha],
            Klaves::Down => seq![AppEvent::NextSloha],
            Klaves::Left => seq![AppEvent::PrevPiesen],
            Klaves::Right => seq![AppEvent::NextPiesen],
            Klaves::Char(' ') => seq![AppEvent::PresentationToggleDark],
            Klaves::End => seq![AppEvent::PresentationStop],
            _ => Seq::empty(),
        }
    } else {
        let vseobecne = match k {
            Klaves::Esc | Klaves::Char('q') => seq![AppEvent::Quit],
            Klaves::Tab => seq![AppEvent::IncrementWidget],
            Klaves::BackTab => seq![AppEvent::DecrementWidget],
            Klaves::Up => seq![AppEvent::DecrementSong],
            Klaves::Down => seq![AppEvent::IncrementSong],
            _ => Seq::empty(),
        };
        let panel = match focus {
            FocusedWidget::Left => match k {
                Klaves::Char(' ') => seq![AppEvent::SelectSong],
                Klaves::Enter => seq![AppEvent::EditSong],
                Klaves::Char('p') => seq![AppEvent::AddSong],
                Klaves::Delete => seq![AppEvent::DeleteSong],
                Klaves::Left => seq![AppEvent::CollapseFolder],
                Klaves::Right => seq![AppEvent::ExpandFolder],
                _ => Seq::empty(),
            },
            FocusedWidget::Right => match k {
                Klaves::Char(' ') => seq![AppEvent::RemoveSelectedSong],
                Klaves::Home => seq![AppEvent::PresentationStart],
                _ => Seq::empty(),
            },
            FocusedWidget::Search => Seq::empty(),
        };
        vseobecne + panel
    }
}

/// Hľadaný text po stlačení klávesy.
pub open spec fn hladanie_po_klavese(
    premieta: bool,
    focus: FocusedWidget,
    k: Klaves,
    search: Seq<char>,
) -> Seq<char> {
    if !premieta && focus == FocusedWidget::Search {
        match k {
            Klaves::Char(c) => search.push(c),
            Klaves::Backspace => if search.len() > 0 {
                search.drop_last()
            } else {
                search
            },
            _ => search,
        }
    } else {
        search
    }
}

/// Nasledujúci panel pri cyklovaní dopredu.
pub open spec fn dalsi_panel(f: FocusedWidget) -> FocusedWidget {
    match f {
        FocusedWidget::Left => FocusedWidget::Right,
        FocusedWidget::Right => FocusedWidget::Search,
        FocusedWidget::Search => FocusedWidget::Left,
    }
}

/// Predchádzajúci panel pri cyklovaní dozadu.
pub open spec fn predosly_panel(f: FocusedWidget) -> FocusedWidget {
    match f {
        FocusedWidget::Left => FocusedWidget::Search,
        FocusedWidget::Right => FocusedWidget::Left,
        FocusedWidget::Search => FocusedWidget::Right,
    }
}

/// Tab a potom Shift+Tab vráti zameranie na pôvodný panel (a naopak);
/// trojnásobný Tab obehne všetky panely.
pub proof fn zakon_panely(f: FocusedWidget)
    ensures
        predosly_panel(dalsi_panel(f)) == f,
        dalsi_panel(predosly_panel(f)) == f,
        dalsi_panel(dalsi_panel(dalsi_panel(f))) == f,
{
}

/// Počas premietania ovládajú šípky a ďalšie klávesy len premietanie, v ktoromkoľvek
/// paneli: šípka doprava vyšle práve nasledujúcu pieseň, doľava predchádzajúcu,
/// nahor predchádzajúcu slohu, nadol nasledujúcu slohu, medzerník prepne zatmavenie,
/// End premietanie ukončí; hľadaný text sa nemení.
pub proof fn zakon_klavesy_pri_premietani(f: FocusedWidget, g: FocusedWidget, k: Klaves, hladane: Seq<char>)
    ensures
        udalosti_klavesy(true, f, Klaves::Right) == seq![AppEvent::NextPiesen],
        udalosti_klavesy(true, f, Klaves::Left) == seq![AppEvent::PrevPiesen],
        udalosti_klavesy(true, f, Klaves::Up) == seq![AppEvent::PrevSloha],
        udalosti_klavesy(true, f, Klaves::Down) == seq![AppEvent::NextSloha],
        udalosti_klavesy(true, f, Klaves::Char(' ')) == seq![AppEvent::PresentationToggleDark],
        udalosti_klavesy(true, f, Klaves::End) == seq![AppEvent::PresentationStop],
        udalosti_klavesy(true, f, k).len() <= 1,
        udalosti_klavesy(true, f, k) == udalosti_klavesy(true, g, k),
        hladanie_po_klavese(true, f, k, hladane) == hladane,
{
}

/// Mimo premietania: Esc a `q` vyšlú ukončenie, Tab a Shift+Tab prepnú panel,
/// šípky nahor a nadol posunú výber v strome, v každom paneli ako prvú udalosť.
pub proof fn zakon_klavesy_bez_premietania(f: FocusedWidget)
    ensures
        udalosti_klavesy(false, f, Klaves::Esc)[0] == AppEvent::Quit,
        udalosti_klavesy(false, f, Klaves::Char('q'))[0] == AppEvent::Quit,
        udalosti_klavesy(false, f, Klaves::Tab) == seq![AppEvent::IncrementWidget],
        udalosti_klavesy(false, f, Klaves::BackTab) == seq![AppEvent::DecrementWidget],
        udalosti_klavesy(false, f, Klaves::Up) == seq![AppEvent::DecrementSong],
        udalosti_klavesy(false, f, Klaves::Down) == seq![AppEvent::IncrementSong],
        udalosti_klavesy(false, FocusedWidget::Left, Klaves::Right) == seq![AppEvent::ExpandFolder],
        udalosti_klavesy(false, FocusedWidget::Left, Klaves::Left) == seq![AppEvent::CollapseFolder],
{
    assert(udalosti_klavesy(false, f, Klaves::Tab) =~= seq![AppEvent::IncrementWidget]);
    assert(udalosti_klavesy(false, f, Klaves::BackTab) =~= seq![AppEvent::DecrementWidget]);
    assert(udalosti_klavesy(false, f, Klaves::Up) =~= seq![AppEvent::DecrementSong]);
    assert(udalosti_klavesy(false, f, Klaves::Down) =~= seq![AppEvent::IncrementSong]);
    assert(udalosti_klavesy(false, FocusedWidget::Left, Klaves::Right) =~= seq![AppEvent::ExpandFolder]);
    assert(udalosti_klavesy(false, FocusedWidget::Left, Klaves::Left) =~= seq![AppEvent::CollapseFolder]);
}

/// Text strofy `i` pesničky, alebo prázdny text, ak neexistuje.
pub open spec fn text_strofy(p: PiesenV, i: int) -> Seq<char> {
    if 0 <= i < p.strofy.len() {
        p.strofy[i].text
    } else {
        Seq::empty()
    }
}

/// Pieseň, ktorá sa premieta (podľa stavu zariadenia).
pub open spec fn premietana(k: StavPremietania, s: Seq<PiesenV>) -> Option<PiesenV> {
    let i = (k.cislo_pesnicky as usize) as int;
    if i < s.len() {
        Some(s[i])
    } else {
        None
    }
}

/// Pieseň s daným typom a číslom z posledného prvku cesty vo vybranom strome.
pub open spec fn vybrana_piesen_spec(vybrane: Seq<TreeId>) -> Option<(TypPiesne, i32)> {
    if vybrane.len() == 0 {
        None
    } else {
        match vybrane.last() {
            TreeId::Song(t, id) => Some((t, id)),
            _ => None,
        }
    }
}

impl App {
    /// Navigačný stav aplikácie.
    pub open spec fn navigacia(&self) -> Navigacia {
        Navigacia {
            vybrany: self.selected_song_lister.state.vybrany,
            komunikator: self.komunikator,
        }
    }

    /// Pesničky vybrané na premietanie.
    pub open spec fn vybrane(&self) -> Seq<PiesenV> {
        self.selected_song_lister.song_manager@
    }

    /// Všetko okrem zamerania panelu ostáva.
    pub open spec fn ostatne_rovnake(&self, o: &App) -> bool {
        &&& self.running == o.running
        &&& self.song_lister.song_manager@ == o.song_lister.song_manager@
        &&& self.song_lister.search@ == o.song_lister.search@
        &&& self.selected_song_lister.song_manager@ == o.selected_song_lister.song_manager@
        &&& self.selected_song_lister.state == o.selected_song_lister.state
        &&& self.komunikator == o.komunikator
        &&& self.loading == o.loading
    }

    /// Všetko okrem navigácie ostáva.
    pub open spec fn ina_rovnaka(&self, o: &App) -> bool {
        &&& self.running == o.running
        &&& self.focusing_widget == o.focusing_widget
        &&& self.song_lister.song_manager@ == o.song_lister.song_manager@
        &&& self.song_lister.search@ == o.song_lister.search@
        &&& self.selected_song_lister.song_manager@ == o.selected_song_lister.song_manager@
        &&& self.loading == o.loading
    }

    /// Nová aplikácia nad pesničkami z databázy: ľavý panel, nič nie je vybraté,
    /// zariadenie nie je pripojené.
    pub fn new(piesne_z_databazy: SongManager) -> (r: App)
        ensures
            r.running,
            r.focusing_widget == FocusedWidget::Left,
            r.song_lister.song_manager@ == piesne_z_databazy@,
            r.song_lister.search@.len() == 0,
            r.selected_song_lister.song_manager@.len() == 0,
            r.selected_song_lister.state.vybrany is None,
            r.komunikator is None,
            !r.loading,
    {
        App {
            running: true,
            focusing_widget: FocusedWidget::Left,
            song_lister: SongLister::new(piesne_z_databazy),
            selected_song_lister: SongListerList::default(),
            komunikator: None,
            loading: false,
        }
    }

    /// Či práve beží premietanie.
    pub fn premieta(&self) -> (r: bool)
        ensures
            r == (self.komunikator matches Some(k) && k.premietanie_bezi),
    {
        match &self.komunikator {
            Some(k) => k.premietanie_bezi,
            None => false,
        }
    }

    /// Či je pripojené zariadenie.
    pub fn je_pripojeny(&self) -> (r: bool)
        ensures
            r == self.komunikator is Some,
    {
        self.komunikator.is_some()
    }

    /// Ukončí aplikáciu.
    pub fn quit(&mut self)
        ensures
            !final(self).running,
            final(self).focusing_widget == old(self).focusing_widget,
            final(self).song_lister.song_manager@ == old(self).song_lister.song_manager@,
            final(self).song_lister.search@ == old(self).song_lister.search@,
            final(self).selected_song_lister.song_manager@ == old(self).vybrane(),
            final(self).selected_song_lister.state == old(self).selected_song_lister.state,
            final(self).komunikator == old(self).komunikator,
            final(self).loading == old(self).loading,
    {
        self.running = false;
    }

    /// Zameranie na ďalší panel.
    pub fn increment_widget(&mut self)
        ensures
            final(self).focusing_widget == dalsi_panel(old(self).focusing_widget),
            final(self).ostatne_rovnake(old(self)),
    {
        self.focusing_widget = match self.focusing_widget {
            FocusedWidget::Left => FocusedWidget::Right,
            FocusedWidget::Right => FocusedWidget::Search,
            FocusedWidget::Search => FocusedWidget::Left,
        }
    }

    /// Zameranie na predchádzajúci panel.
    pub fn decrement_widget(&mut self)
        ensures
            final(self).focusing_widget == predosly_panel(old(self).focusing_widget),
            final(self).ostatne_rovnake(old(self)),
    {
        self.focusing_widget = match self.focusing_widget {
            FocusedWidget::Left => FocusedWidget::Search,
            FocusedWidget::Right => FocusedWidget::Left,
            FocusedWidget::Search => FocusedWidget::Right,
        }
    }

    /// Reakcia na stlačenú klávesu: vráti udalosti na vyslanie; v paneli hľadania upraví
    /// hľadaný text.
    pub fn handle_key_events(&mut self, key: Klaves) -> (r: Vec<AppEvent>)
        ensures
            r@ == udalosti_klavesy(old(self).premieta_spec(), old(self).focusing_widget, key),
            final(self).song_lister.search@ == hladanie_po_klavese(
                old(self).premieta_spec(),
                old(self).focusing_widget,
                key,
                old(self).song_lister.search@,
            ),
            final(self).song_lister.song_manager@ == old(self).song_lister.song_manager@,
            final(self).focusing_widget == old(self).focusing_widget,
            final(self).komunikator == old(self).komunikator,
            final(self).running == old(self).running,
            final(self).selected_song_lister.song_manager@ == old(self).vybrane(),
            final(self).selected_song_lister.state == old(self).selected_song_lister.state,
            final(self).loading == old(self).loading,
    {
        let mut r: Vec<AppEvent> = Vec::new();
        if self.premieta() {
            match key {
                Klaves::Up => r.push(AppEvent::PrevSloha),
                Klaves::Down => r.push(AppEvent::NextSloha),
                Klaves::Left => r.push(AppEvent::PrevPiesen),
                Klaves::Right => r.push(AppEvent::NextPiesen),
                Klaves::Char(' ') => r.push(AppEvent::PresentationToggleDark),
                Klaves::End => r.push(AppEvent::PresentationStop),
                _ => {},
            }
            assert(r@ =~= udalosti_klavesy(true, self.focusing_widget, key));
            return r;
        }
        match key {
            Klaves::Esc | Klaves::Char('q') => r.push(AppEvent::Quit),
            Klaves::Tab => r.push(AppEvent::IncrementWidget),
            Klaves::BackTab => r.push(AppEvent::DecrementWidget),
            Klaves::Up => r.push(AppEvent::DecrementSong),
            Klaves::Down => r.push(AppEvent::IncrementSong),
            _ => {},
        }
        let ghost prve = r@;
        if self.focusing_widget == FocusedWidget::Left {
            match key {
                Klaves::Char(' ') => r.push(AppEvent::SelectSong),
                Klaves::Enter => r.push(AppEvent::EditSong),
                Klaves::Char('p') => r.push(AppEvent::AddSong),
                Klaves::Delete => r.push(AppEvent::DeleteSong),
                Klaves::Left => r.push(AppEvent::CollapseFolder),
                Klaves::Right => r.push(AppEvent::ExpandFolder),
                _ => {},
            }
        } else if self.focusing_widget == FocusedWidget::Right {
            match key {
                Klaves::Char(' ') => r.push(AppEvent::RemoveSelectedSong),
                Klaves::Home => r.push(AppEvent::PresentationStart),
                _ => {},
            }
        } else if self.focusing_widget == FocusedWidget::Search {
            match key {
                Klaves::Char(c) => crate::text::pridaj_znak(&mut self.song_lister.search, c),
                Klaves::Backspace => {
                    crate::text::odober_posledny(&mut self.song_lister.search);
                },
                _ => {},
            }
        }
        assert(r@ =~= udalosti_klavesy(false, self.focusing_widget, key));
        r
    }

    /// `premieta` ako hodnota.
    pub open spec fn premieta_spec(&self) -> bool {
        self.komunikator matches Some(k) && k.premietanie_bezi
    }

    /// Zariadenie vrátené po odoslaní piesní: znova je pripojené a vyberie sa prvá pieseň.
    pub fn tick(&mut self, vrateny: Option<StavPremietania>)
        ensures
            match vrateny {
                Some(k) => final(self).komunikator == Some(k)
                    && final(self).selected_song_lister.state.vybrany == Some(0usize),
                None => final(self).komunikator == old(self).komunikator
                    && final(self).selected_song_lister.state == old(
                    self,
                ).selected_song_lister.state,
            },
            final(self).ina_rovnaka(old(self)),
    {
        if let Some(k) = vrateny {
            self.komunikator = Some(k);
            self.selected_song_lister.state.select(Some(0));
        }
    }

    /// Pohyb nadol v zameranom paneli: v pravom zozname sa posunie výber,
    /// v ľavom strome vráti pohyb, ktorý vykoná zobrazovacia vrstva.
    pub fn increment_song(&mut self) -> (r: PohybStromu)
        ensures
            r == if old(self).focusing_widget == FocusedWidget::Left {
                PohybStromu::Dole
            } else {
                PohybStromu::Ziadny
            },
            final(self).selected_song_lister.state.vybrany == if old(self).focusing_widget
                == FocusedWidget::Right {
                crate::song_lister::dalsi_index(
                    old(self).selected_song_lister.state.vybrany,
                    old(self).vybrane().len(),
                )
            } else {
                old(self).selected_song_lister.state.vybrany
            },
            final(self).ina_rovnaka(old(self)),
            final(self).komunikator == old(self).komunikator,
    {
        match self.focusing_widget {
            FocusedWidget::Left => PohybStromu::Dole,
            FocusedWidget::Right => {
                self.selected_song_lister.select_next();
                PohybStromu::Ziadny
            },
            _ => PohybStromu::Ziadny,
        }
    }

    /// Pohyb nahor v zameranom paneli.
    pub fn decrement_song(&mut self) -> (r: PohybStromu)
        ensures
            r == if old(self).focusing_widget == FocusedWidget::Left {
                PohybStromu::Hore
            } else {
                PohybStromu::Ziadny
            },
            final(self).selected_song_lister.state.vybrany == if old(self).focusing_widget
                == FocusedWidget::Right {
                crate::song_lister::predosly_index(
                    old(self).selected_song_lister.state.vybrany,
                    old(self).vybrane().len(),
                )
            } else {
                old(self).selected_song_lister.state.vybrany
            },
            final(self).ina_rovnaka(old(self)),
            final(self).komunikator == old(self).komunikator,
    {
        match self.focusing_widget {
            FocusedWidget::Left => PohybStromu::Hore,
            FocusedWidget::Right => {
                self.selected_song_lister.select_previous();
                PohybStromu::Ziadny
            },
            _ => PohybStromu::Ziadny,
        }
    }

    /// Zbalenie priečinka v ľavom strome.
    pub fn collapse_folder(&self) -> (r: PohybStromu)
        ensures
            r == if self.focusing_widget == FocusedWidget::Left {
                PohybStromu::Zbal
            } else {
                PohybStromu::Ziadny
            },
    {
        if self.focusing_widget == FocusedWidget::Left {
            PohybStromu::Zbal
        } else {
            PohybStromu::Ziadny
        }
    }

    /// Rozbalenie priečinka v ľavom strome.
    pub fn expand_folder(&self) -> (r: PohybStromu)
        ensures
            r == if self.focusing_widget == FocusedWidget::Left {
                PohybStromu::Rozbal
            } else {
                PohybStromu::Ziadny
            },
    {
        if self.focusing_widget == FocusedWidget::Left {
            PohybStromu::Rozbal
        } else {
            PohybStromu::Ziadny
        }
    }

    /// Typ a číslo pesničky vybranej v strome (posledný prvok cesty `vybrane`).
    pub fn get_selected_song_id(&self, vybrane: &Vec<TreeId>) -> (r: Option<(TypPiesne, i32)>)
        ensures
            r == vybrana_piesen_spec(vybrane@),
    {
        if vybrane.len() == 0 {
            return None;
        }
        match vybrane[vybrane.len() - 1] {
            TreeId::Song(t, id) => Some((t, id)),
            _ => None,
        }
    }

    /// Pridá pesničku vybranú v strome do zoznamu na premietanie.
    pub fn select_song(&mut self, vybrane: &Vec<TreeId>)
        ensures
            ({
                let stare = old(self).vybrane();
                let nove = final(self).vybrane();
                if old(self).focusing_widget == FocusedWidget::Left {
                    match vybrana_piesen_spec(vybrane@) {
                        Some((t, id)) => if ziadna_zhoda(old(self).song_lister.song_manager@, id, t) {
                            nove == stare
                        } else {
                            exists|i: int|
                                prva_zhoda(old(self).song_lister.song_manager@, id, t, i)
                                    && stabilne_zoradene(
                                    nove,
                                    stare.push(old(self).song_lister.song_manager@[i]),
                                )
                        },
                        None => nove == stare,
                    }
                } else {
                    nove == stare
                }
            }),
            final(self).song_lister.song_manager@ == old(self).song_lister.song_manager@,
            final(self).komunikator == old(self).komunikator,
            final(self).selected_song_lister.state == old(self).selected_song_lister.state,
            final(self).focusing_widget == old(self).focusing_widget,
            final(self).running == old(self).running,
            final(self).song_lister.search@ == old(self).song_lister.search@,
            final(self).loading == old(self).loading,
    {
        if self.focusing_widget != FocusedWidget::Left {
            return;
        }
        let (typ_pesnicky, song_id) = match self.get_selected_song_id(vybrane) {
            Some(id) => id,
            None => return,
        };
        match self.song_lister.song_manager.get_song_by_id(song_id, typ_pesnicky) {
            Some(song) => {
                let kopia = song.clone();
                self.selected_song_lister.song_manager.add_song(kopia);
            },
            None => {},
        }
    }

    /// Odoberie vybranú pesničku zo zoznamu na premietanie (ak je zameraný pravý panel).
    pub fn remove_selected_song(&mut self)
        ensures
            ({
                let stare = old(self).vybrane();
                let nove = final(self).vybrane();
                match old(self).selected_song_lister.state.vybrany {
                    Some(i) => if old(self).focusing_widget == FocusedWidget::Right && i
                        < stare.len() {
                        nove == stare.remove(i as int)
                    } else {
                        nove == stare
                    },
                    None => nove == stare,
                }
            }),
            final(self).selected_song_lister.state == old(self).selected_song_lister.state,
            final(self).song_lister.song_manager@ == old(self).song_lister.song_manager@,
            final(self).komunikator == old(self).komunikator,
            final(self).running == old(self).running,
            final(self).focusing_widget == old(self).focusing_widget,
            final(self).song_lister.search@ == old(self).song_lister.search@,
            final(self).loading == old(self).loading,
    {
        if self.focusing_widget != FocusedWidget::Right {
            return;
        }
        if self.selected_song_lister.song_manager.is_empty() {
            return;
        }
        let index = match self.selected_song_lister.state.selected() {
            Some(i) => i,
            None => return,
        };
        if index < self.selected_song_lister.song_manager.piesne.len() {
            let ghost stare = self.vybrane();
            self.selected_song_lister.song_manager.piesne.remove(index);
            assert(self.vybrane() =~= stare.remove(index as int));
        }
    }

    /// Pesnička vybraná v strome na úpravu (ak je zameraný ľavý panel).
    pub fn edit_song(&self, vybrane: &Vec<TreeId>) -> (r: Option<SongJks>)
        ensures
            match r {
                Some(p) => self.focusing_widget == FocusedWidget::Left && (vybrana_piesen_spec(
                    vybrane@,
                ) matches Some((t, id)) && exists|i: int|
                    #[trigger] prva_zhoda(self.song_lister.song_manager@, id, t, i) && p@
                        == self.song_lister.song_manager@[i]),
                None => self.focusing_widget != FocusedWidget::Left || vybrana_piesen_spec(
                    vybrane@,
                ) is None || (vybrana_piesen_spec(vybrane@) matches Some((t, id))
                    && ziadna_zhoda(self.song_lister.song_manager@, id, t)),
            },
    {
        if self.focusing_widget != FocusedWidget::Left {
            return None;
        }
        let (typ_pesnicky, song_id) = match self.get_selected_song_id(vybrane) {
            Some(id) => id,
            None => return None,
        };
        match self.song_lister.song_manager.get_song_by_id(song_id, typ_pesnicky) {
            Some(song) => Some(song.clone()),
            None => None,
        }
    }

    /// Pesnička vybraná v strome na zmazanie (rovnaký výber ako pri úprave).
    pub fn delete_song(&self, vybrane: &Vec<TreeId>) -> (r: Option<SongJks>)
        ensures
            match r {
                Some(p) => self.focusing_widget == FocusedWidget::Left && (vybrana_piesen_spec(
                    vybrane@,
                ) matches Some((t, id)) && exists|i: int|
                    #[trigger] prva_zhoda(self.song_lister.song_manager@, id, t, i) && p@
                        == self.song_lister.song_manager@[i]),
                None => self.focusing_widget != FocusedWidget::Left || vybrana_piesen_spec(
                    vybrane@,
                ) is None || (vybrana_piesen_spec(vybrane@) matches Some((t, id))
                    && ziadna_zhoda(self.song_lister.song_manager@, id, t)),
            },
    {
        self.edit_song(vybrane)
    }

    /// Či sa má začať pridávanie novej pesničky (ľavý panel a neprázdna databáza).
    pub fn add_song(&self) -> (r: bool)
        ensures
            r == (self.focusing_widget == FocusedWidget::Left
                && self.song_lister.song_manager@.len() > 0),
    {
        self.focusing_widget == FocusedWidget::Left && !self.song_lister.song_manager.is_empty()
    }

    /// Odošle príkaz pripojenému zariadeniu: zmení jeho stav a vráti príkaz na zápis na port.
    fn posli(&mut self, p: Prikaz) -> (r: Option<Prikaz>)
        ensures
            match old(self).komunikator {
                Some(k) => final(self).komunikator == Some(stav_po(k, p)) && r == Some(p),
                None => final(self).komunikator is None && r is None,
            },
            final(self).ina_rovnaka(old(self)),
            final(self).selected_song_lister.state == old(self).selected_song_lister.state,
    {
        match &mut self.komunikator {
            Some(k) => {
                k.aplikuj(&p);
                Some(p)
            },
            None => None,
        }
    }

    /// Ukončí premietanie na zariadení.
    pub fn presentation_stop(&mut self) -> (r: Option<Prikaz>)
        ensures
            match old(self).komunikator {
                Some(k) => final(self).komunikator == Some(
                    stav_po(k, Prikaz::VypniPremietanie),
                ) && r == Some(Prikaz::VypniPremietanie),
                None => final(self).komunikator is None && r is None,
            },
            final(self).ina_rovnaka(old(self)),
            final(self).selected_song_lister.state == old(self).selected_song_lister.state,
    {
        self.posli(Prikaz::VypniPremietanie)
    }

    /// Prepne zatmavenie obrazovky.
    pub fn presentation_toggle_dark(&mut self) -> (r: Option<Prikaz>)
        ensures
            match old(self).komunikator {
                Some(k) => {
                    let p = if k.blackscreen {
                        Prikaz::Odtmav
                    } else {
                        Prikaz::Zatmav
                    };
                    final(self).komunikator == Some(stav_po(k, p)) && r == Some(p)
                },
                None => final(self).komunikator is None && r is None,
            },
            final(self).ina_rovnaka(old(self)),
            final(self).selected_song_lister.state == old(self).selected_song_lister.state,
    {
        let cierna = match &self.komunikator {
            Some(k) => k.blackscreen,
            None => return None,
        };
        if cierna {
            self.posli(Prikaz::Odtmav)
        } else {
            self.posli(Prikaz::Zatmav)
        }
    }

    /// Prepne na pieseň `d` a slohu `sloha` v zozname na premietanie.
    fn prepni_na(&mut self, d: usize, sloha: i32) -> (r: Option<Prikaz>)
        ensures
            (final(self).navigacia(), r) == prepni(old(self).navigacia(), d as int, sloha),
            final(self).ina_rovnaka(old(self)),
    {
        self.selected_song_lister.state.select(Some(d));
        self.posli(Prikaz::PrepniNa { piesen: d as i32, sloha })
    }

    /// Nasledujúca pieseň (od prvej slohy).
    pub fn next_piesen(&mut self) -> (r: Option<Prikaz>)
        requires
            old(self).selected_song_lister.state.vybrany != Some(usize::MAX),
        ensures
            (final(self).navigacia(), r) == po_next_piesen(
                old(self).navigacia(),
                old(self).vybrane().len(),
            ),
            final(self).ina_rovnaka(old(self)),
    {
        let aktualna_idx = match self.selected_song_lister.state.selected() {
            Some(i) => i,
            None => 0,
        };
        let pocet_piesni = self.selected_song_lister.song_manager.piesne.len();
        if aktualna_idx + 1 >= pocet_piesni {
            return None;
        }
        self.prepni_na(aktualna_idx + 1, 1)
    }

    /// Predchádzajúca pieseň (od prvej slohy).
    pub fn prev_piesen(&mut self) -> (r: Option<Prikaz>)
        ensures
            (final(self).navigacia(), r) == po_prev_piesen(old(self).navigacia()),
            final(self).ina_rovnaka(old(self)),
    {
        let aktualna_idx = match self.selected_song_lister.state.selected() {
            Some(i) => i,
            None => 0,
        };
        if aktualna_idx == 0 {
            return None;
        }
        self.prepni_na(aktualna_idx - 1, 1)
    }

    /// Predchádzajúca pieseň od jej poslednej slohy.
    fn prev_piesen_posledna_sloha(&mut self) -> (r: Option<Prikaz>)
        ensures
            (final(self).navigacia(), r) == po_prev_piesen_posledna_sloha(
                old(self).navigacia(),
                old(self).vybrane(),
            ),
            final(self).ina_rovnaka(old(self)),
    {
        let aktualna_idx = match self.selected_song_lister.state.selected() {
            Some(i) => i,
            None => 0,
        };
        if aktualna_idx == 0 {
            return None;
        }
        let predch_idx = aktualna_idx - 1;
        let posledna: i32 = if predch_idx < self.selected_song_lister.song_manager.piesne.len() {
            let n = self.selected_song_lister.song_manager.piesne[predch_idx].strofy.len();
            let x: i32 = (if n > 0 {
                n - 1
            } else {
                0
            }) as i32;
            if x > 1 {
                x
            } else {
                1
            }
        } else {
            1
        };
        self.prepni_na(predch_idx, posledna)
    }

    /// Nasledujúca sloha; za poslednou slohou nasledujúca pieseň.
    pub fn next_sloha(&mut self) -> (r: Option<Prikaz>)
        requires
            old(self).selected_song_lister.state.vybrany != Some(usize::MAX),
            old(self).komunikator matches Some(k) ==> (k.cislo_slohy == i32::MAX ==> (
            k.cislo_slohy as usize) >= pocet_sloh(old(self).komunikator, old(self).vybrane())),
        ensures
            (final(self).navigacia(), r) == po_next_sloha(
                old(self).navigacia(),
                old(self).vybrane(),
            ),
            final(self).ina_rovnaka(old(self)),
    {
        let pocet_sloh = self.get_pocet_sloh();
        let aktualna: usize = match &self.komunikator {
            Some(k) => k.cislo_slohy as usize,
            None => return None,
        };
        if aktualna >= pocet_sloh {
            self.next_piesen()
        } else {
            let p = match &self.komunikator {
                Some(k) => k.dalsia_sloha(),
                None => return None,
            };
            self.posli(p)
        }
    }

    /// Predchádzajúca sloha; pred prvou slohou posledná sloha predchádzajúcej piesne.
    pub fn prev_sloha(&mut self) -> (r: Option<Prikaz>)
        ensures
            (final(self).navigacia(), r) == po_prev_sloha(
                old(self).navigacia(),
                old(self).vybrane(),
            ),
            final(self).ina_rovnaka(old(self)),
    {
        let aktualna: i32 = match &self.komunikator {
            Some(k) => k.cislo_slohy,
            None => return None,
        };
        if aktualna <= 1 {
            self.prev_piesen_posledna_sloha()
        } else {
            let p = match &self.komunikator {
                Some(k) => k.predchadzajuca_sloha(),
                None => return None,
            };
            self.posli(p)
        }
    }

    /// Prepne zariadenie na vybranú pieseň podľa jej čísla (od prvej slohy).
    pub fn presentation_send_current_song(&mut self) -> (r: Option<Prikaz>)
        ensures
            ({
                let s = old(self).vybrane();
                match old(self).selected_song_lister.state.vybrany {
                    Some(i) => if i < s.len() {
                        match old(self).komunikator {
                            Some(k) => {
                                let p = Prikaz::PrepniNa { piesen: s[i as int].id, sloha: 1 };
                                r == Some(p) && final(self).komunikator == Some(stav_po(k, p))
                            },
                            None => r is None && final(self).komunikator is None,
                        }
                    } else {
                        r is None && final(self).komunikator == old(self).komunikator
                    },
                    None => r is None && final(self).komunikator == old(self).komunikator,
                }
            }),
            final(self).ina_rovnaka(old(self)),
            final(self).selected_song_lister.state == old(self).selected_song_lister.state,
    {
        let index = match self.selected_song_lister.state.selected() {
            Some(i) => i,
            None => return None,
        };
        if index >= self.selected_song_lister.song_manager.piesne.len() {
            return None;
        }
        let song_id = self.selected_song_lister.song_manager.piesne[index].id;
        self.posli(Prikaz::PrepniNa { piesen: song_id, sloha: 1 })
    }

    /// Počet slôh premietanej piesne (bez názvu).
    pub fn get_pocet_sloh(&self) -> (r: usize)
        ensures
            r == pocet_sloh(self.komunikator, self.vybrane()),
    {
        let k = match &self.komunikator {
            Some(k) => k,
            None => return 0,
        };
        let piesen_idx = k.cislo_pesnicky as usize;
        if piesen_idx < self.selected_song_lister.song_manager.piesne.len() {
            let n = self.selected_song_lister.song_manager.piesne[piesen_idx].strofy.len();
            if n > 0 {
                n - 1
            } else {
                0
            }
        } else {
            0
        }
    }

    /// Názov premietanej piesne (strofa 0), alebo prázdny text.
    pub fn get_nazov_piesne(&self) -> (r: String)
        ensures
            r@ == match self.komunikator {
                Some(k) => match premietana(k, self.vybrane()) {
                    Some(p) => text_strofy(p, 0),
                    None => Seq::empty(),
                },
                None => Seq::empty(),
            },
    {
        let k = match &self.komunikator {
            Some(k) => k,
            None => return String::new(),
        };
        let piesen_idx = k.cislo_pesnicky as usize;
        if piesen_idx < self.selected_song_lister.song_manager.piesne.len() {
            let p = &self.selected_song_lister.song_manager.piesne[piesen_idx];
            if p.strofy.len() > 0 {
                return p.strofy[0].text.clone();
            }
        }
        String::new()
    }

    /// Predchádzajúca, aktuálna a nasledujúca sloha premietanej piesne.
    /// Strofa 0 je názov; sloha `n` je strofa `n`.
    pub fn get_slohy_pre_zobrazenie(&self) -> (r: (String, String, String))
        requires
            self.komunikator matches Some(k) ==> (k.cislo_slohy as usize) < usize::MAX,
        ensures
            match self.komunikator {
                Some(k) => match premietana(k, self.vybrane()) {
                    Some(p) => {
                        let i = (k.cislo_slohy as usize) as int;
                        &&& r.0@ == if i > 1 {
                            text_strofy(p, i - 1)
                        } else {
                            Seq::empty()
                        }
                        &&& r.1@ == text_strofy(p, i)
                        &&& r.2@ == text_strofy(p, i + 1)
                    },
                    None => r.0@.len() == 0 && r.1@.len() == 0 && r.2@.len() == 0,
                },
                None => r.0@.len() == 0 && r.1@.len() == 0 && r.2@.len() == 0,
            },
    {
        let k = match &self.komunikator {
            Some(k) => k,
            None => return (String::new(), String::new(), String::new()),
        };
        let piesen_idx = k.cislo_pesnicky as usize;
        let sloha_idx = k.cislo_slohy as usize;
        if piesen_idx >= self.selected_song_lister.song_manager.piesne.len() {
            return (String::new(), String::new(), String::new());
        }
        let piesen = &self.selected_song_lister.song_manager.piesne[piesen_idx];
        let predchadzajuca = if sloha_idx > 1 {
            text_strofy_piesne(piesen, sloha_idx - 1)
        } else {
            String::new()
        };
        let aktualna = text_strofy_piesne(piesen, sloha_idx);
        let nasledujuca = text_strofy_piesne(piesen, sloha_idx + 1);
        (predchadzajuca, aktualna, nasledujuca)
    }

    /// Začiatok premietania: ak je zariadenie pripojené a zoznam nie je prázdny, odovzdá
    /// zariadenie nahrávaniu piesní zoznamu (kým sa nevráti cez `tick`, je odpojené);
    /// inak nerobí nič.
    pub fn presentation_start(&mut self) -> (r: Option<Nahravanie>)
        ensures
            match r {
                Some(n) => {
                    &&& old(self).komunikator == Some(n.stav)
                    &&& final(self).komunikator is None
                    &&& final(self).loading
                    &&& obsah_zapisov(n.plan@) == plan_nahravania(old(self).vybrane())
                    &&& n.pozicia == 0
                    &&& old(self).vybrane().len() > 0
                },
                None => {
                    &&& final(self).komunikator == old(self).komunikator
                    &&& final(self).loading == old(self).loading
                    &&& (old(self).komunikator is None || old(self).vybrane().len() == 0)
                },
            },
            final(self).selected_song_lister.song_manager@ == old(self).vybrane(),
            final(self).selected_song_lister.state == old(self).selected_song_lister.state,
            final(self).song_lister.song_manager@ == old(self).song_lister.song_manager@,
            final(self).song_lister.search@ == old(self).song_lister.search@,
            final(self).running == old(self).running,
            final(self).focusing_widget == old(self).focusing_widget,
    {
        if self.komunikator.is_none() || self.selected_song_lister.song_manager.is_empty() {
            return None;
        }
        let k = match self.komunikator.take() {
            Some(k) => k,
            None => return None,
        };
        let n = Nahravanie::new(k, &self.selected_song_lister.song_manager);
        self.loading = true;
        Some(n)
    }
}

/// Text strofy `i` pesničky, alebo prázdny text.
fn text_strofy_piesne(p: &SongJks, i: usize) -> (r: String)
    ensures
        r@ == text_strofy(p@, i as int),
{
    if i < p.strofy.len() {
        p.strofy[i].text.clone()
    } else {
        String::new()
    }
}

/// Text strofy pre zariadenie: nové riadky sa nahradia znakom `^`.
pub open spec fn cisty_text(t: Seq<char>) -> Seq<char> {
    t.map_values(|c: char| if c == '\n' {
        '^'
    } else {
        c
    })
}

/// Hlavička strofy `$$cislo$$`.
pub open spec fn hlavicka_strofy(cislo: i32) -> Seq<char> {
    seq!['$', '$'] + dec_int(cislo as int) + seq!['$', '$']
}

/// Koniec strofy `%%%`.
pub open spec fn koniec_strofy() -> Seq<char> {
    seq!['%', '%', '%']
}

/// Správy, ktorými sa strofa posiela na zariadenie: text po 20 znakoch, prvý kus
/// s hlavičkou, posledný s koncom; prázdna strofa je jedna správa s hlavičkou a koncom.
pub open spec fn spravy_strofy_spec(cislo: i32, text: Seq<char>) -> Seq<Seq<char>> {
    let c = cisty_text(text);
    if c.len() == 0 {
        seq![hlavicka_strofy(cislo) + koniec_strofy()]
    } else {
        let k = kusy(c, 20);
        Seq::new(
            k.len(),
            |i: int|
                (if i == 0 {
                    hlavicka_strofy(cislo)
                } else {
                    Seq::empty()
                }) + k[i] + (if i == k.len() - 1 {
                    koniec_strofy()
                } else {
                    Seq::empty()
                }),
        )
    }
}

proof fn lemma_kusy_dlzka<A>(s: Seq<A>, n: nat)
    requires
        n > 0,
        s.len() > 0,
    ensures
        kusy(s, n).len() > 0,
        kusy(s, n).len() == (s.len() + n - 1) / n as int,
    decreases s.len(),
{
    if s.len() <= n {
        assert((s.len() + n - 1) / n as int == 1) by (nonlinear_arith)
            requires
                0 < s.len() <= n,
        ;
    } else {
        lemma_kusy_dlzka(s.skip(n as int), n);
        assert((s.len() + n - 1) / n as int == (s.len() - n + n - 1) / n as int + 1)
            by (nonlinear_arith)
            requires
                s.len() > n,
                n > 0,
        ;
    }
}

/// Správy, ktorými sa strofa posiela na zariadenie.
pub fn spravy_strofy(cislo: i32, text: &str) -> (r: Vec<String>)
    ensures
        r@.len() == spravy_strofy_spec(cislo, text@).len(),
        forall|i: int| 0 <= i < r@.len() ==> (#[trigger] r@[i])@ == spravy_strofy_spec(cislo, text@)[i],
{
    let z = znaky(text);
    let mut c: Vec<char> = Vec::new();
    let mut i: usize = 0;
    while i < z.len()
        invariant
            z@ == text@,
            i <= z.len(),
            c@ == cisty_text(z@.take(i as int)),
        decreases z.len() - i,
    {
        let x = if z[i] == '\n' {
            '^'
        } else {
            z[i]
        };
        c.push(x);
        proof {
            assert(c@ =~= cisty_text(z@.take(i + 1)));
        }
        i = i + 1;
    }
    assert(z@.take(z@.len() as int) =~= z@);
    let mut hlavicka = vec!['$', '$'];
    pridaj_znaky(&mut hlavicka, &cislo_na_znaky(cislo as i64));
    hlavicka.push('$');
    hlavicka.push('$');
    assert(hlavicka@ =~= hlavicka_strofy(cislo));
    let mut r: Vec<String> = Vec::new();
    if c.len() == 0 {
        let mut sprava = hlavicka;
        sprava.push('%');
        sprava.push('%');
        sprava.push('%');
        assert(sprava@ =~= hlavicka_strofy(cislo) + koniec_strofy());
        r.push(retazec(&sprava));
        return r;
    }
    let ghost k = kusy(c@, 20);
    proof {
        lemma_kusy_dlzka(c@, 20);
    }
    let n = c.len();
    let pocet = (n - 1) / 20 + 1;
    assert(pocet == k.len()) by (nonlinear_arith)
        requires
            k.len() == (n + 20 - 1) / 20 as int,
            n > 0,
            pocet == (n - 1) / 20 + 1,
    ;
    assert(c@.skip(0) =~= c@);
    assert(k.skip(0) =~= k);
    assert(c@ == cisty_text(text@));
    let mut ci: usize = 0;
    let mut zac: usize = 0;
    while ci < pocet
        invariant
            n == c@.len(),
            n > 0,
            c@ == cisty_text(text@),
            k == kusy(c@, 20),
            pocet == k.len(),
            ci <= pocet,
            zac <= n,
            kusy(c@.skip(zac as int), 20) == k.skip(ci as int),
            hlavicka@ == hlavicka_strofy(cislo),
            r@.len() == ci,
            forall|t: int| 0 <= t < ci ==> (#[trigger] r@[t])@ == spravy_strofy_spec(cislo, text@)[t],
        decreases pocet - ci,
    {
        let kon = if n - zac <= 20 {
            n
        } else {
            zac + 20
        };
        let ghost zv = c@.skip(zac as int);
        proof {
            assert(k.skip(ci as int).len() > 0);
            if zac >= n {
                assert(zv.len() == 0);
            }
            assert(k.skip(ci as int)[0] == k[ci as int]);
            if zv.len() <= 20 {
                assert(kusy(zv, 20) == seq![zv]);
            } else {
                assert(kusy(zv, 20) == seq![zv.take(20)] + kusy(zv.skip(20), 20));
            }
        }
        let mut sprava: Vec<char> = if ci == 0 {
            hlavicka.clone()
        } else {
            Vec::new()
        };
        let ghost zaciatok = sprava@;
        let mut j: usize = zac;
        while j < kon
            invariant
                zac <= j <= kon,
                kon <= c@.len(),
                sprava@ == zaciatok + c@.subrange(zac as int, j as int),
            decreases kon - j,
        {
            proof {
                assert(c@.subrange(zac as int, j + 1) =~= c@.subrange(zac as int, j as int).push(
                    c@[j as int],
                ));
            }
            sprava.push(c[j]);
            j = j + 1;
        }
        proof {
            assert(c@.subrange(zac as int, kon as int) =~= k[ci as int]);
        }
        if ci + 1 == pocet {
            sprava.push('%');
            sprava.push('%');
            sprava.push('%');
        }
        proof {
            let sp = spravy_strofy_spec(cislo, text@);
            assert(sp.len() == k.len());
            assert(sp[ci as int] == (if ci == 0 {
                hlavicka_strofy(cislo)
            } else {
                Seq::empty()
            }) + k[ci as int] + (if ci == k.len() - 1 {
                koniec_strofy()
            } else {
                Seq::empty()
            }));
            assert(sprava@ =~= sp[ci as int]);
            if ci + 1 < pocet {
                assert(zv.len() > 20);
                assert(c@.skip(kon as int) =~= zv.skip(20));
                assert(k.skip(ci + 1) =~= k.skip(ci as int).skip(1));
            }
        }
        r.push(retazec(&sprava));
        ci = ci + 1;
        zac = kon;
    }
    r
}


/// Správy spojené za sebou.
pub open spec fn spojene(s: Seq<Seq<char>>) -> Seq<char>
    decreases s.len(),
{
    if s.len() == 0 {
        Seq::empty()
    } else {
        s[0] + spojene(s.drop_first())
    }
}

/// Kusy spojené za sebou dávajú pôvodný text.
proof fn lemma_kusy_spojene(c: Seq<char>, n: nat)
    requires
        n > 0,
    ensures
        spojene(kusy(c, n)) == c,
    decreases c.len(),
{
    let prazdne = Seq::<Seq<char>>::empty();
    assert(spojene(prazdne) == Seq::<char>::empty());
    if c.len() == 0 {
        assert(kusy(c, n) == prazdne);
        assert(c =~= Seq::<char>::empty());
    } else if c.len() <= n {
        let k = kusy(c, n);
        assert(k == seq![c]);
        assert(k.drop_first() =~= prazdne);
        assert(spojene(k) == k[0] + spojene(k.drop_first()));
        assert(c + Seq::<char>::empty() =~= c);
    } else {
        let k = kusy(c, n);
        assert(k == seq![c.take(n as int)] + kusy(c.skip(n as int), n));
        assert(k.drop_first() =~= kusy(c.skip(n as int), n));
        assert(spojene(k) == k[0] + spojene(k.drop_first()));
        lemma_kusy_spojene(c.skip(n as int), n);
        assert(c.take(n as int) + c.skip(n as int) =~= c);
    }
}

/// Správy s hlavičkou pred prvým kusom a koncom za posledným.
pub open spec fn s_hlavickou(k: Seq<Seq<char>>, h: Seq<char>, t: Seq<char>) -> Seq<Seq<char>> {
    Seq::new(
        k.len(),
        |i: int|
            (if i == 0 {
                h
            } else {
                Seq::empty()
            }) + k[i] + (if i == k.len() - 1 {
                t
            } else {
                Seq::empty()
            }),
    )
}

proof fn lemma_s_hlavickou(k: Seq<Seq<char>>, h: Seq<char>, t: Seq<char>)
    requires
        k.len() > 0,
    ensures
        spojene(s_hlavickou(k, h, t)) == h + spojene(k) + t,
    decreases k.len(),
{
    let s = s_hlavickou(k, h, t);
    let prazdny = Seq::<char>::empty();
    let prazdne = Seq::<Seq<char>>::empty();
    assert(spojene(prazdne) == prazdny);
    assert(spojene(s) == s[0] + spojene(s.drop_first()));
    assert(spojene(k) == k[0] + spojene(k.drop_first()));
    if k.len() == 1 {
        assert(s.drop_first() =~= prazdne);
        assert(k.drop_first() =~= prazdne);
        assert(s[0] =~= h + k[0] + t);
        assert(h + k[0] + t + prazdny =~= h + (k[0] + prazdny) + t);
    } else {
        let k2 = k.drop_first();
        assert(s.drop_first() =~= s_hlavickou(k2, prazdny, t));
        lemma_s_hlavickou(k2, prazdny, t);
        assert(s[0] =~= h + k[0]);
        assert(h + k[0] + (prazdny + spojene(k2) + t) =~= h + (k[0] + spojene(k2)) + t);
    }
}

/// Správy strofy spojené za sebou sú hlavička `$$číslo$$`, text strofy so znakom `^`
/// namiesto nových riadkov a koniec `%%%`: zariadenie dostane celú strofu.
pub proof fn zakon_spravy_strofy_spolu(cislo: i32, text: Seq<char>)
    ensures
        spojene(spravy_strofy_spec(cislo, text)) == hlavicka_strofy(cislo) + cisty_text(text)
            + koniec_strofy(),
{
    let c = cisty_text(text);
    let h = hlavicka_strofy(cislo);
    let t = koniec_strofy();
    if c.len() == 0 {
        let sp = spravy_strofy_spec(cislo, text);
        assert(sp.drop_first() =~= Seq::<Seq<char>>::empty());
        assert(spojene(Seq::<Seq<char>>::empty()) == Seq::<char>::empty());
        assert(spojene(sp) == sp[0] + spojene(sp.drop_first()));
        assert(h + c + t =~= h + t);
        assert(h + t + Seq::<char>::empty() =~= h + t);
    } else {
        let k = kusy(c, 20);
        lemma_kusy_dlzka(c, 20);
        assert(spravy_strofy_spec(cislo, text) =~= s_hlavickou(k, h, t));
        lemma_s_hlavickou(k, h, t);
        lemma_kusy_spojene(c, 20);
    }
}

} // verus!
