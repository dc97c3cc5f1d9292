use jks_premietanie::library_jks::{SongJks, SongManager, StrofaJKS};
use jks_premietanie::platno::{Direction, SongScreenApp, StlaceneKlavesy, Transition};
use jks_premietanie::typ::TypPiesne;

fn piesen(id: i32, sloh: i32) -> SongJks {
    let strofy = (0..=sloh)
        .map(|i| StrofaJKS { id, cislo_strofy: i, typ_piesne: None, text: format!("{}:{}", id, i) })
        .collect();
    SongJks::new(id, sloh, strofy, TypPiesne::Hymna)
}

fn platno() -> SongScreenApp {
    let mut m = SongManager::new();
    m.add_song(piesen(1, 2));
    m.add_song(piesen(2, 1));
    SongScreenApp::new(m)
}

fn k() -> StlaceneKlavesy {
    StlaceneKlavesy { escape: false, space: false, right: false, left: false, up: false, down: false }
}

#[test]
fn nove_platno_ukazuje_nazov_prvej() {
    let p = platno();
    assert_eq!(p.current_text(), "1:0");
    assert_eq!(p.transition(), Transition::Viewing);
    assert_eq!(SongScreenApp::new(SongManager::new()).current_text(), "");
}

#[test]
fn sipky_prechadzaju_strofy_a_piesne() {
    let mut p = platno();
    assert!(!p.logic(StlaceneKlavesy { right: true, ..k() }));
    assert_eq!(p.current_text(), "1:1");
    p.logic(StlaceneKlavesy { right: true, ..k() });
    p.logic(StlaceneKlavesy { right: true, ..k() });
    assert_eq!(p.transition(), Transition::BlackScreen { direction: Direction::Next });
    assert_eq!(p.current_text(), "");
    p.logic(StlaceneKlavesy { right: true, ..k() });
    assert_eq!(p.transition(), Transition::Viewing);
    assert_eq!(p.current_text(), "2:0");
    p.logic(StlaceneKlavesy { left: true, ..k() });
    assert_eq!(p.transition(), Transition::BlackScreen { direction: Direction::Previous });
    p.logic(StlaceneKlavesy { left: true, ..k() });
    // späť na poslednú strofu predchádzajúcej piesne
    assert_eq!((p.song_idx(), p.strofa_idx()), (0, 2));
    assert_eq!(p.current_text(), "1:2");
    p.logic(StlaceneKlavesy { up: true, ..k() });
    assert_eq!((p.song_idx(), p.strofa_idx()), (1, 0));
    p.logic(StlaceneKlavesy { up: true, ..k() });
    assert_eq!(p.song_idx(), 1);
    p.logic(StlaceneKlavesy { down: true, ..k() });
    assert_eq!(p.song_idx(), 0);
}

#[test]
fn medzernik_dvakrat_vrati_stav() {
    let mut p = platno();
    p.logic(StlaceneKlavesy { right: true, ..k() });
    let pred = (p.song_idx(), p.strofa_idx());
    p.logic(StlaceneKlavesy { space: true, ..k() });
    assert!(p.space_pressed());
    assert_eq!(p.current_text(), "");
    // počas ručného zatmavenia šípky nič nerobia
    p.logic(StlaceneKlavesy { right: true, ..k() });
    assert_eq!((p.song_idx(), p.strofa_idx()), pred);
    p.logic(StlaceneKlavesy { space: true, ..k() });
    assert!(!p.space_pressed());
    assert_eq!(p.transition(), Transition::Viewing);
    assert_eq!((p.song_idx(), p.strofa_idx()), pred);
    assert_eq!(p.current_text(), "1:1");
}

#[test]
fn escape_konci() {
    let mut p = platno();
    assert!(p.logic(StlaceneKlavesy { escape: true, right: true, ..k() }));
    assert_eq!(p.strofa_idx(), 0);
}

#[test]
fn strofa_tam_a_spat() {
    let mut p = platno();
    p.logic(StlaceneKlavesy { right: true, ..k() });
    let pred = (p.song_idx(), p.strofa_idx(), p.transition());
    p.logic(StlaceneKlavesy { right: true, ..k() });
    p.logic(StlaceneKlavesy { left: true, ..k() });
    assert_eq!((p.song_idx(), p.strofa_idx(), p.transition()), pred);
}

#[test]
fn spat_na_poslednu_strofu_aj_pri_prazdnej_piesni() {
    let mut m = SongManager::new();
    m.add_song(SongJks::new(1, 0, vec![StrofaJKS { id: 1, cislo_strofy: 0, typ_piesne: None, text: "len názov".to_string() }], TypPiesne::Hymna));
    m.add_song(piesen(2, 1));
    let mut p = SongScreenApp::new(m);
    p.logic(StlaceneKlavesy { up: true, ..k() });
    p.logic(StlaceneKlavesy { left: true, ..k() });
    p.logic(StlaceneKlavesy { left: true, ..k() });
    assert_eq!((p.song_idx(), p.strofa_idx()), (0, 0));
    assert_eq!(p.current_text(), "len názov");
}
