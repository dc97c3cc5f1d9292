use jks_premietanie::app::{spravy_strofy, App, AppEvent, FocusedWidget, Klaves, PohybStromu};
use jks_premietanie::nahravanie::{Nahravanie, Zapis};
use jks_premietanie::library_jks::{SongJks, SongManager, StrofaJKS};
use jks_premietanie::seial_comunikator::{Prikaz, StavPremietania};
use jks_premietanie::song_lister::TreeId;
use jks_premietanie::typ::TypPiesne;

fn piesen(id: i32, typ: TypPiesne, sloh: i32) -> SongJks {
    let mut strofy = vec![StrofaJKS { id, cislo_strofy: 0, typ_piesne: None, text: format!("Pieseň {}", id) }];
    for i in 1..=sloh {
        strofy.push(StrofaJKS { id, cislo_strofy: i, typ_piesne: None, text: format!("{}/{}", id, i) });
    }
    SongJks::new(id, sloh, strofy, typ)
}

fn databaza() -> SongManager {
    let mut m = SongManager::new();
    m.add_song(piesen(1, TypPiesne::Hymna, 2));
    m.add_song(piesen(2, TypPiesne::Taize, 3));
    m.add_song(piesen(3, TypPiesne::Hymna, 1));
    m
}

fn pripojeny_stav() -> StavPremietania {
    StavPremietania { cislo_pesnicky: 0, cislo_slohy: 1, blackscreen: false, premietanie_bezi: true }
}

#[test]
fn nova_aplikacia() {
    let a = App::new(databaza());
    assert!(a.running);
    assert_eq!(a.focusing_widget, FocusedWidget::Left);
    assert!(!a.premieta());
    assert!(!a.je_pripojeny());
    assert!(a.add_song());
    assert!(!App::new(SongManager::new()).add_song());
}

#[test]
fn panely_tab_a_spat() {
    let mut a = App::new(databaza());
    a.increment_widget();
    assert_eq!(a.focusing_widget, FocusedWidget::Right);
    a.increment_widget();
    assert_eq!(a.focusing_widget, FocusedWidget::Search);
    a.increment_widget();
    assert_eq!(a.focusing_widget, FocusedWidget::Left);
    a.decrement_widget();
    assert_eq!(a.focusing_widget, FocusedWidget::Search);
    a.increment_widget();
    assert_eq!(a.focusing_widget, FocusedWidget::Left);
    a.quit();
    assert!(!a.running);
}

#[test]
fn klavesy_mimo_premietania() {
    let mut a = App::new(databaza());
    assert_eq!(a.handle_key_events(Klaves::Char('q')), vec![AppEvent::Quit]);
    assert_eq!(a.handle_key_events(Klaves::Down), vec![AppEvent::IncrementSong]);
    assert_eq!(a.handle_key_events(Klaves::Char(' ')), vec![AppEvent::SelectSong]);
    assert_eq!(a.handle_key_events(Klaves::Enter), vec![AppEvent::EditSong]);
    assert_eq!(a.handle_key_events(Klaves::Right), vec![AppEvent::ExpandFolder]);
    assert_eq!(a.handle_key_events(Klaves::Home), vec![]);
    a.focusing_widget = FocusedWidget::Right;
    assert_eq!(a.handle_key_events(Klaves::Home), vec![AppEvent::PresentationStart]);
    assert_eq!(a.handle_key_events(Klaves::Char(' ')), vec![AppEvent::RemoveSelectedSong]);
    a.focusing_widget = FocusedWidget::Search;
    assert_eq!(a.handle_key_events(Klaves::Char('q')), vec![AppEvent::Quit]);
    assert_eq!(a.handle_key_events(Klaves::Char('ž')), vec![]);
    assert_eq!(a.handle_key_events(Klaves::Char('x')), vec![]);
    assert_eq!(a.song_lister.search, "qžx");
    a.handle_key_events(Klaves::Backspace);
    assert_eq!(a.song_lister.search, "qž");
    a.handle_key_events(Klaves::Backspace);
    a.handle_key_events(Klaves::Backspace);
    a.handle_key_events(Klaves::Backspace);
    assert_eq!(a.song_lister.search, "");
}

#[test]
fn klavesy_pocas_premietania() {
    let mut a = App::new(databaza());
    a.komunikator = Some(pripojeny_stav());
    assert!(a.premieta());
    assert_eq!(a.handle_key_events(Klaves::Up), vec![AppEvent::PrevSloha]);
    assert_eq!(a.handle_key_events(Klaves::Down), vec![AppEvent::NextSloha]);
    assert_eq!(a.handle_key_events(Klaves::Char(' ')), vec![AppEvent::PresentationToggleDark]);
    assert_eq!(a.handle_key_events(Klaves::End), vec![AppEvent::PresentationStop]);
    assert_eq!(a.handle_key_events(Klaves::Char('q')), vec![]);
}

#[test]
fn vyber_piesne_zo_stromu() {
    let mut a = App::new(databaza());
    a.select_song(&vec![TreeId::FolderTyp(TypPiesne::Taize), TreeId::Song(TypPiesne::Taize, 2)]);
    a.select_song(&vec![TreeId::Song(TypPiesne::Hymna, 1)]);
    a.select_song(&vec![TreeId::Song(TypPiesne::Hymna, 99)]);
    a.select_song(&vec![TreeId::FolderTyp(TypPiesne::Hymna)]);
    let ids: Vec<i32> = a.selected_song_lister.song_manager.piesne.iter().map(|p| p.id).collect();
    assert_eq!(ids, vec![1, 2]);
    assert_eq!(a.get_selected_song_id(&vec![TreeId::Song(TypPiesne::Zalm, 4)]), Some((TypPiesne::Zalm, 4)));
    assert_eq!(a.get_selected_song_id(&vec![]), None);
    let upravit = a.edit_song(&vec![TreeId::Song(TypPiesne::Hymna, 3)]).unwrap();
    assert_eq!(upravit.id, 3);
    assert!(a.delete_song(&vec![TreeId::Song(TypPiesne::Taize, 3)]).is_none());
    a.focusing_widget = FocusedWidget::Right;
    assert!(a.edit_song(&vec![TreeId::Song(TypPiesne::Hymna, 3)]).is_none());
    a.select_song(&vec![TreeId::Song(TypPiesne::Hymna, 3)]);
    assert_eq!(a.selected_song_lister.song_manager.piesne.len(), 2);
}

#[test]
fn pohyb_a_odobratie_v_pravom_zozname() {
    let mut a = App::new(databaza());
    a.select_song(&vec![TreeId::Song(TypPiesne::Hymna, 1)]);
    a.select_song(&vec![TreeId::Song(TypPiesne::Taize, 2)]);
    assert_eq!(a.increment_song(), PohybStromu::Dole);
    assert_eq!(a.collapse_folder(), PohybStromu::Zbal);
    assert_eq!(a.expand_folder(), PohybStromu::Rozbal);
    a.focusing_widget = FocusedWidget::Right;
    assert_eq!(a.increment_song(), PohybStromu::Ziadny);
    assert_eq!(a.selected_song_lister.state.vybrany, Some(0));
    a.increment_song();
    a.increment_song();
    assert_eq!(a.selected_song_lister.state.vybrany, Some(0));
    a.decrement_song();
    assert_eq!(a.selected_song_lister.state.vybrany, Some(1));
    assert_eq!(a.expand_folder(), PohybStromu::Ziadny);
    a.remove_selected_song();
    let ids: Vec<i32> = a.selected_song_lister.song_manager.piesne.iter().map(|p| p.id).collect();
    assert_eq!(ids, vec![1]);
}

fn premietajuca() -> App {
    let mut a = App::new(databaza());
    a.select_song(&vec![TreeId::Song(TypPiesne::Hymna, 1)]);
    a.select_song(&vec![TreeId::Song(TypPiesne::Taize, 2)]);
    a.komunikator = Some(pripojeny_stav());
    a.selected_song_lister.state.vybrany = Some(0);
    a
}

#[test]
fn premietanie_slohy_a_piesne() {
    let mut a = premietajuca();
    assert_eq!(a.get_pocet_sloh(), 2);
    assert_eq!(a.get_nazov_piesne(), "Pieseň 1");
    assert_eq!(a.next_sloha(), Some(Prikaz::PrepniNa { piesen: 0, sloha: 2 }));
    // za poslednou slohou ďalšia pieseň od slohy 1
    assert_eq!(a.next_sloha(), Some(Prikaz::PrepniNa { piesen: 1, sloha: 1 }));
    assert_eq!(a.selected_song_lister.state.vybrany, Some(1));
    assert_eq!(a.get_pocet_sloh(), 3);
    // pred prvou slohou posledná sloha predchádzajúcej piesne
    assert_eq!(a.prev_sloha(), Some(Prikaz::PrepniNa { piesen: 0, sloha: 2 }));
    assert_eq!(a.prev_sloha(), Some(Prikaz::PrepniNa { piesen: 0, sloha: 1 }));
    assert_eq!(a.prev_sloha(), None);
    assert_eq!(a.prev_piesen(), None);
    assert_eq!(a.next_piesen(), Some(Prikaz::PrepniNa { piesen: 1, sloha: 1 }));
    assert_eq!(a.next_piesen(), None);
    assert_eq!(a.presentation_send_current_song(), Some(Prikaz::PrepniNa { piesen: 2, sloha: 1 }));
    assert_eq!(a.komunikator.unwrap().cislo_pesnicky, 2);
}

#[test]
fn zatmavenie_a_koniec() {
    let mut a = premietajuca();
    assert_eq!(a.presentation_toggle_dark(), Some(Prikaz::Zatmav));
    assert!(a.komunikator.unwrap().blackscreen);
    assert_eq!(a.info_premietania(), " ■ ZATMAVENÉ");
    assert_eq!(a.presentation_toggle_dark(), Some(Prikaz::Odtmav));
    assert_eq!(a.presentation_stop(), Some(Prikaz::VypniPremietanie));
    assert!(!a.premieta());
    let mut b = App::new(databaza());
    assert_eq!(b.presentation_toggle_dark(), None);
    assert_eq!(b.presentation_stop(), None);
    assert_eq!(b.next_sloha(), None);
}

#[test]
fn texty_sloh_na_obrazovke() {
    let mut a = premietajuca();
    let (p, c, n) = a.get_slohy_pre_zobrazenie();
    assert_eq!((p.as_str(), c.as_str(), n.as_str()), ("", "1/1", "1/2"));
    a.next_sloha();
    let (p, c, n) = a.get_slohy_pre_zobrazenie();
    assert_eq!((p.as_str(), c.as_str(), n.as_str()), ("1/1", "1/2", ""));
    assert_eq!(a.titulok_premietania(), " Pieseň 1 ── 2/2 ");
    assert_eq!(a.info_premietania(), " sloha  2/2");
    let b = App::new(databaza());
    assert_eq!(b.titulok_premietania(), " sloha 0/0 ");
    assert_eq!(b.get_slohy_pre_zobrazenie(), (String::new(), String::new(), String::new()));
}

#[test]
fn napoveda_klavesov() {
    let mut a = App::new(databaza());
    assert!(a.text_napovedy().starts_with("Tab: panel  |  Šípky: pohyb  |  Medzerník: pridať"));
    a.focusing_widget = FocusedWidget::Search;
    assert_eq!(a.text_napovedy(), "Píš pre hľadanie  |  Backspace: zmaž  |  Tab: panel  |  q: koniec");
    a.komunikator = Some(pripojeny_stav());
    assert_eq!(a.text_napovedy(), "↑↓: sloha  |  ←→: pieseň  |  Medzerník: zatmavenie  |  End: ukončiť premietanie");
}

#[test]
fn zaciatok_premietania_odovzda_zariadenie() {
    let mut a = premietajuca();
    let n = a.presentation_start().unwrap();
    assert_eq!(n.stav, pripojeny_stav());
    assert_eq!(n.pozicia, 0);
    assert!(a.komunikator.is_none());
    assert!(a.loading);
    assert_eq!(n.plan.len(), 11);
    a.tick(Some(n.stav));
    assert!(a.je_pripojeny());
    assert_eq!(a.selected_song_lister.state.vybrany, Some(0));
    let mut b = App::new(databaza());
    assert!(b.presentation_start().is_none());
    b.komunikator = Some(pripojeny_stav());
    assert!(b.presentation_start().is_none());
    assert!(b.je_pripojeny());
}

/// Spustí nahrávanie; `zlyha` určuje, ktoré zápisy (podľa textu) zlyhajú.
fn nahraj(n: &mut Nahravanie, zlyha: &dyn Fn(&str) -> bool) -> Vec<String> {
    let mut zapisane = Vec::new();
    while let Some(z) = n.aktualny() {
        let text = match z {
            Zapis::Prikaz(p) => p.na_retazec(),
            Zapis::Text(t) => t.clone(),
        };
        let ok = !zlyha(&text);
        zapisane.push(text);
        n.po_zapise(ok);
    }
    zapisane
}

#[test]
fn nahravanie_po_poradi() {
    let mut a = premietajuca();
    let mut n = a.presentation_start().unwrap();
    let zapisane = nahraj(&mut n, &|_| false);
    assert_eq!(
        zapisane,
        vec![
            "%$3$0$%", "$$0$$Pieseň 1%%%", "$$1$$1/1%%%", "$$2$$1/2%%%",
            "%$3$1$%", "$$0$$Pieseň 2%%%", "$$1$$2/1%%%", "$$2$$2/2%%%", "$$3$$2/3%%%",
            "%$1$0$%", "%|0|1|%",
        ]
    );
    assert_eq!(
        n.stav,
        StavPremietania { cislo_pesnicky: 0, cislo_slohy: 1, blackscreen: false, premietanie_bezi: true }
    );
}

#[test]
fn nahravanie_po_chybe() {
    // zlyhaná hlavička preskočí strofy piesne
    let mut a = premietajuca();
    let mut n = a.presentation_start().unwrap();
    let zapisane = nahraj(&mut n, &|t| t == "%$3$0$%");
    assert_eq!(zapisane[0], "%$3$0$%");
    assert_eq!(zapisane[1], "%$3$1$%");
    assert_eq!(zapisane.len(), 11 - 3);
    // zlyhané spustenie: už sa neprepína na prvú slohu
    let mut b = premietajuca();
    let mut n = b.presentation_start().unwrap();
    let zapisane = nahraj(&mut n, &|t| t == "%$1$0$%");
    assert_eq!(zapisane.last().unwrap(), "%$1$0$%");
    assert_eq!(zapisane.len(), 10);
    assert!(n.stav.premietanie_bezi);
    assert_eq!(n.stav.cislo_pesnicky, 1);
    // zlyhaná správa strofy sa len preskočí
    let mut c = premietajuca();
    let mut n = c.presentation_start().unwrap();
    assert_eq!(nahraj(&mut n, &|t| t.starts_with("$$1$$")).len(), 11);
}

#[test]
fn spravy_strofy_po_dvadsiatich_znakoch() {
    assert_eq!(spravy_strofy(3, ""), vec!["$$3$$%%%".to_string()]);
    assert_eq!(spravy_strofy(0, "Krátka\nstrofa"), vec!["$$0$$Krátka^strofa%%%".to_string()]);
    let dlha = "abcdefghijklmnopqrstuvwxyz0123456789ABCDEFGHIJ";
    assert_eq!(
        spravy_strofy(12, dlha),
        vec![
            "$$12$$abcdefghijklmnopqrst".to_string(),
            "uvwxyz0123456789ABCD".to_string(),
            "EFGHIJ%%%".to_string(),
        ]
    );
}

#[test]
fn spravy_strofy_spolu_su_cela_strofa() {
    let text = "Ó, Mária, Matka Božia,\nprosíme ťa, oroduj za nás.";
    let spolu: String = spravy_strofy(7, text).concat();
    assert_eq!(spolu, format!("$$7$${}%%%", text.replace('\n', "^")));
    assert_eq!(spravy_strofy(-1, "").concat(), "$$-1$$%%%");
}
