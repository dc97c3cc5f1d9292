use jks_premietanie::library_jks::{SongJks, SongManager, StrofaJKS};
use jks_premietanie::typ::{JKSTypPiesne, TypPiesne};

fn strofa(id: i32, cislo: i32, text: &str) -> StrofaJKS {
    StrofaJKS { id, cislo_strofy: cislo, typ_piesne: None, text: text.to_string() }
}

fn piesen(id: i32, typ: TypPiesne, nazov: &str) -> SongJks {
    SongJks::new(id, 1, vec![strofa(id, 0, nazov), strofa(id, 1, "prvá sloha")], typ)
}

#[test]
fn format_song_zarovna_cislo_doprava() {
    let p = piesen(12, TypPiesne::Hymna, "Hymna Slovenska");
    assert_eq!(p.format_song(), "   12  Hymna Slovenska");
    let dlhe = piesen(123456, TypPiesne::Hymna, "X");
    assert_eq!(dlhe.format_song(), "123456  X");
    let zaporne = piesen(-7, TypPiesne::Hymna, "Z");
    assert_eq!(zaporne.format_song(), "   -7  Z");
}

#[test]
fn get_strofa_text_mimo_rozsahu() {
    let p = piesen(1, TypPiesne::Taize, "Názov");
    assert_eq!(p.get_strofa_text(0), "Názov");
    assert_eq!(p.get_strofa_text(1), "prvá sloha");
    assert_eq!(p.get_strofa_text(2), "Nenajdene ERROR");
    assert_eq!(p.get_strofa_text(-1), "Nenajdene ERROR");
}

#[test]
fn add_song_udrziava_poradie_podla_id() {
    let mut m = SongManager::new();
    assert!(m.is_empty());
    m.add_song(piesen(5, TypPiesne::Hymna, "päť"));
    m.add_song(piesen(2, TypPiesne::Hymna, "dva"));
    m.add_song(piesen(5, TypPiesne::Taize, "päť taize"));
    m.add_song(piesen(1, TypPiesne::Zalm, "jeden"));
    let ids: Vec<i32> = m.get_all_songs().iter().map(|p| p.id).collect();
    assert_eq!(ids, vec![1, 2, 5, 5]);
    // rovnaké id: v poradí pridania
    assert_eq!(m.piesne[2].typ_pesnicky, TypPiesne::Hymna);
    assert_eq!(m.piesne[3].typ_pesnicky, TypPiesne::Taize);
    assert!(!m.is_empty());
}

#[test]
fn add_song_do_nezoradeneho_zoznamu_ho_zoradi() {
    let mut m = SongManager { piesne: vec![piesen(9, TypPiesne::Hymna, "a"), piesen(3, TypPiesne::Hymna, "b")] };
    m.add_song(piesen(4, TypPiesne::Hymna, "c"));
    let ids: Vec<i32> = m.piesne.iter().map(|p| p.id).collect();
    assert_eq!(ids, vec![3, 4, 9]);
}

#[test]
fn pridana_sa_najde_a_po_odobrati_zostane_povodny_zoznam() {
    let mut m = SongManager::new();
    m.add_song(piesen(3, TypPiesne::Hymna, "tri"));
    m.add_song(piesen(8, TypPiesne::Hymna, "osem"));
    m.add_song(piesen(3, TypPiesne::JKS(JKSTypPiesne::Advent), "advent"));
    let najdena = m.get_song_by_id(3, TypPiesne::JKS(JKSTypPiesne::Advent)).unwrap();
    assert_eq!(najdena.strofy[0].text, "advent");
    m.remove_song_by_id(3, TypPiesne::JKS(JKSTypPiesne::Advent));
    assert!(m.get_song_by_id(3, TypPiesne::JKS(JKSTypPiesne::Advent)).is_none());
    let zvysok: Vec<(i32, TypPiesne)> = m.piesne.iter().map(|p| (p.id, p.typ_pesnicky)).collect();
    assert_eq!(zvysok, vec![(3, TypPiesne::Hymna), (8, TypPiesne::Hymna)]);
}

#[test]
fn remove_song_by_id_odstrani_len_prvu_zhodu() {
    let mut m = SongManager::new();
    m.add_song(piesen(1, TypPiesne::Hymna, "prvá"));
    m.add_song(piesen(1, TypPiesne::Hymna, "druhá"));
    m.remove_song_by_id(1, TypPiesne::Hymna);
    assert_eq!(m.piesne.len(), 1);
    assert_eq!(m.piesne[0].strofy[0].text, "druhá");
    m.remove_song_by_id(42, TypPiesne::Hymna);
    assert_eq!(m.piesne.len(), 1);
}

#[test]
fn get_format_all_formatuje_kazdu_piesen() {
    let mut m = SongManager::default();
    m.add_song(piesen(10, TypPiesne::Hymna, "desať"));
    m.add_song(piesen(2, TypPiesne::Hymna, "dva"));
    assert_eq!(m.get_format_all(), vec!["    2  dva".to_string(), "   10  desať".to_string()]);
}

#[test]
fn klon_piesne_je_rovnaky() {
    let p = piesen(4, TypPiesne::Responz, "r");
    let k = p.clone();
    assert_eq!(k.id, 4);
    assert_eq!(k.strofy.len(), 2);
    assert_eq!(k.strofy[1].text, "prvá sloha");
    assert_eq!(k.typ_pesnicky, TypPiesne::Responz);
}
