//! Texty, ktoré ukazuje obrazovka aplikácie: nápoveda klávesov a údaje o premietaní.
//! Samotné kreslenie obsluhuje aplikácia.
use vstd::prelude::*;
use vstd::string::StringExecFns;
use crate::app::{pocet_sloh, premietana, text_strofy, App, FocusedWidget};
use crate::text::{dec_int, nat_na_znaky, retazec};

verus! {

/// Nápoveda klávesov podľa toho, či beží premietanie a ktorý panel je aktívny.
pub open spec fn napoveda(premieta: bool, f: FocusedWidget) -> Seq<char> {
    if premieta {
        "↑↓: sloha  |  ←→: pieseň  |  Medzerník: zatmavenie  |  End: ukončiť premietanie"@
    } else {
        match f {
            FocusedWidget::Left => "Tab: panel  |  Šípky: pohyb  |  Medzerník: pridať  |  Enter: upraviť  |  p: pridať  |  Delete: zmazať  |  q: koniec"@,
            FocusedWidget::Right => "Tab: panel  |  Šípky: pohyb  |  Medzerník: odobrať  |  Home: štart  |  q: koniec"@,
            FocusedWidget::Search => "Píš pre hľadanie  |  Backspace: zmaž  |  Tab: panel  |  q: koniec"@,
        }
    }
}

/// Nadpis premietacieho panelu: názov piesne (ak nejaký je), sloha a počet slôh.
pub open spec fn titulok(nazov: Seq<char>, sloha: nat, pocet: nat) -> Seq<char> {
    if nazov.len() == 0 {
        " sloha "@ + dec_int(sloha as int) + "/"@ + dec_int(pocet as int) + " "@
    } else {
        " "@ + nazov + " ── "@ + dec_int(sloha as int) + "/"@ + dec_int(pocet as int) + " "@
    }
}

/// Údaj v pravom paneli počas premietania.
pub open spec fn info(zatmavene: bool, sloha: nat, pocet: nat) -> Seq<char> {
    if zatmavene {
        " ■ ZATMAVENÉ"@
    } else {
        " sloha  "@ + dec_int(sloha as int) + "/"@ + dec_int(pocet as int)
    }
}

fn text_cisla(n: usize) -> (r: String)
    ensures
        r@ == dec_int(n as int),
{
    retazec(&nat_na_znaky(n as u64))
}

impl App {
    /// Číslo premietanej slohy (0, ak zariadenie nie je pripojené).
    pub open spec fn sloha_spec(&self) -> nat {
        match self.komunikator {
            Some(k) => (k.cislo_slohy as usize) as nat,
            None => 0,
        }
    }

    /// Názov premietanej piesne (strofa 0), alebo prázdny text.
    pub open spec fn nazov_spec(&self) -> Seq<char> {
        match self.komunikator {
            Some(k) => match premietana(k, self.vybrane()) {
                Some(p) => text_strofy(p, 0),
                None => Seq::empty(),
            },
            None => Seq::empty(),
        }
    }

    /// Nápoveda klávesov pre spodný riadok.
    pub fn text_napovedy(&self) -> (r: &'static str)
        ensures
            r@ == napoveda(self.premieta_spec(), self.focusing_widget),
    {
        if self.premieta() {
            "↑↓: sloha  |  ←→: pieseň  |  Medzerník: zatmavenie  |  End: ukončiť premietanie"
        } else {
            match self.focusing_widget {
                FocusedWidget::Left => "Tab: panel  |  Šípky: pohyb  |  Medzerník: pridať  |  Enter: upraviť  |  p: pridať  |  Delete: zmazať  |  q: koniec",
                FocusedWidget::Right => "Tab: panel  |  Šípky: pohyb  |  Medzerník: odobrať  |  Home: štart  |  q: koniec",
                FocusedWidget::Search => "Píš pre hľadanie  |  Backspace: zmaž  |  Tab: panel  |  q: koniec",
            }
        }
    }

    fn sloha(&self) -> (r: usize)
        ensures
            r == self.sloha_spec(),
    {
        match &self.komunikator {
            Some(k) => #[verifier::truncate] (k.cislo_slohy as usize),
            None => 0,
        }
    }

    /// Nadpis premietacieho panelu.
    pub fn titulok_premietania(&self) -> (r: String)
        ensures
            r@ == titulok(
                self.nazov_spec(),
                self.sloha_spec(),
                pocet_sloh(self.komunikator, self.vybrane()),
            ),
    {
        let sloha = text_cisla(self.sloha());
        let pocet = text_cisla(self.get_pocet_sloh());
        let nazov = self.get_nazov_piesne();
        let mut r = if nazov.as_str().is_empty() {
            String::from_str(" sloha ")
        } else {
            let mut r = String::from_str(" ");
            r.append(nazov.as_str());
            r.append(" ── ");
            r
        };
        r.append(sloha.as_str());
        r.append("/");
        r.append(pocet.as_str());
        r.append(" ");
        r
    }

    /// Údaj o premietaní v pravom paneli: zatmavenie, alebo sloha a počet slôh.
    pub fn info_premietania(&self) -> (r: String)
        ensures
            r@ == info(
                self.komunikator matches Some(k) && k.blackscreen,
                self.sloha_spec(),
                pocet_sloh(self.komunikator, self.vybrane()),
            ),
    {
        let zatmavene = match &self.komunikator {
            Some(k) => k.blackscreen,
            None => false,
        };
        if zatmavene {
            return String::from_str(" ■ ZATMAVENÉ");
        }
        let mut r = String::from_str(" sloha  ");
        r.append(text_cisla(self.sloha()).as_str());
        r.append("/");
        r.append(text_cisla(self.get_pocet_sloh()).as_str());
        r
    }
}

} // verus!
