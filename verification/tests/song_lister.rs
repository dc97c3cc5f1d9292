use jks_premietanie::library_jks::{SongJks, SongManager, StrofaJKS};
use jks_premietanie::song_lister::{SongLister, SongListerList, TreeId, VyberZoznamu};
use jks_premietanie::typ::{JKSTypPiesne, TypPiesne};

fn piesen(id: i32, typ: TypPiesne, nazov: &str) -> SongJks {
    SongJks::new(id, 0, vec![StrofaJKS { id, cislo_strofy: 0, typ_piesne: None, text: nazov.to_string() }], typ)
}

fn zoznam(n: i32) -> SongListerList {
    let mut l = SongListerList::new();
    for i in 0..n {
        l.song_manager.add_song(piesen(i, TypPiesne::Hymna, "x"));
    }
    l
}

#[test]
fn vyber_cykluje() {
    let mut l = zoznam(3);
    assert_eq!(l.selected_index(), None);
    l.select_next();
    assert_eq!(l.selected_index(), Some(0));
    l.select_next();
    l.select_next();
    assert_eq!(l.selected_index(), Some(2));
    l.select_next();
    assert_eq!(l.selected_index(), Some(0));
    l.select_previous();
    assert_eq!(l.selected_index(), Some(2));
    let mut p = zoznam(3);
    p.select_previous();
    assert_eq!(p.selected_index(), Some(2));
    let mut prazdny = SongListerList::default();
    prazdny.select_next();
    prazdny.select_previous();
    prazdny.ensure_selected();
    assert_eq!(prazdny.selected_index(), None);
    assert!(prazdny.get_selected_song().is_none());
}

#[test]
fn dalsi_a_predosly_sa_rusia() {
    let mut l = zoznam(4);
    l.state.select(Some(1));
    l.select_next();
    l.select_previous();
    assert_eq!(l.selected_index(), Some(1));
    l.state.select(Some(3));
    l.select_next();
    l.select_previous();
    assert_eq!(l.selected_index(), Some(3));
}

#[test]
fn odobratie_vybranej() {
    let mut l = zoznam(3);
    l.ensure_selected();
    assert_eq!(l.selected_index(), Some(0));
    l.state.select(Some(2));
    assert_eq!(l.get_selected_song().unwrap().id, 2);
    l.remove_selected();
    assert_eq!(l.song_manager.piesne.len(), 2);
    assert_eq!(l.selected_index(), Some(1));
    l.state.select(Some(0));
    l.remove_selected();
    assert_eq!(l.get_selected_song().unwrap().id, 1);
    l.remove_selected();
    assert_eq!(l.selected_index(), None);
    assert!(l.song_manager.is_empty());
    let mut v = VyberZoznamu::new();
    v.select(Some(5));
    assert_eq!(v.selected(), Some(5));
}

fn databaza() -> SongManager {
    let mut m = SongManager::new();
    m.add_song(piesen(5, TypPiesne::Hymna, "Hymna Slovenska"));
    m.add_song(piesen(12, TypPiesne::JKS(JKSTypPiesne::Vianoce), "Tichá noc"));
    m.add_song(piesen(3, TypPiesne::JKS(JKSTypPiesne::Advent), "Rorate"));
    m.add_song(piesen(7, TypPiesne::Taize, "Ubi caritas"));
    m.add_song(piesen(1, TypPiesne::Hymna, "Ave Maria"));
    m
}

#[test]
fn hladanie_bez_ohladu_na_velkost_pismen() {
    let mut s = SongLister::new(databaza());
    assert_eq!(s.search_get_formated().len(), 5);
    s.search = "TICHÁ".to_string();
    let r: Vec<i32> = s.search_get_formated().iter().map(|p| p.id).collect();
    assert_eq!(r, vec![12]);
    s.search = "a".to_string();
    let r: Vec<i32> = s.search_get_formated().iter().map(|p| p.id).collect();
    assert_eq!(r, vec![1, 3, 5, 7]);
    s.search = "   3  ".to_string();
    let r: Vec<i32> = s.search_get_formated().iter().map(|p| p.id).collect();
    assert_eq!(r, vec![3]);
    s.search = "zzz".to_string();
    assert!(s.search_get_formated().is_empty());
}

#[test]
fn strom_podla_typov() {
    let s = SongLister::new(databaza());
    let t = s.build_tree();
    let priecinky: Vec<TreeId> = t.priecinky.iter().map(|p| p.id).collect();
    assert_eq!(priecinky, vec![TreeId::FolderTyp(TypPiesne::Taize), TreeId::FolderTyp(TypPiesne::Hymna)]);
    assert_eq!(t.priecinky[1].nazov, "Hymna");
    let hymny: Vec<TreeId> = t.priecinky[1].piesne.iter().map(|l| l.id).collect();
    assert_eq!(hymny, vec![TreeId::Song(TypPiesne::Hymna, 1), TreeId::Song(TypPiesne::Hymna, 5)]);
    assert_eq!(t.priecinky[1].piesne[0].text, "    1  Ave Maria");
    let jks: Vec<TreeId> = t.jks.iter().map(|p| p.id).collect();
    assert_eq!(jks, vec![TreeId::FolderJks(JKSTypPiesne::Advent), TreeId::FolderJks(JKSTypPiesne::Vianoce)]);
    assert_eq!(t.jks[1].nazov, "Vianoce");
    let mut h = SongLister::new(databaza());
    h.search = "ubi".to_string();
    let t = h.build_tree();
    assert_eq!(t.priecinky.len(), 1);
    assert!(t.jks.is_empty());
}

#[test]
fn kazda_piesen_je_v_strome() {
    let s = SongLister::new(databaza());
    let t = s.build_tree();
    let mut listy: Vec<TreeId> = Vec::new();
    for p in t.priecinky.iter().chain(t.jks.iter()) {
        for l in &p.piesne {
            listy.push(l.id);
        }
    }
    for p in &s.song_manager.piesne {
        assert_eq!(listy.iter().filter(|id| **id == TreeId::Song(p.typ_pesnicky, p.id)).count(), 1);
    }
    assert_eq!(listy.len(), s.song_manager.piesne.len());
}
