use jks_premietanie::file_opener::{fo_delete_song, nacitaj_texty_strof, nacitaj_zo_suboru, song_id_existing, text_na_upravu};
use jks_premietanie::library_jks::{SongJks, SongManager, StrofaJKS};
use jks_premietanie::typ::{JKSTypPiesne, TypPiesne};

fn piesen(id: i32, typ: TypPiesne, texty: &[&str]) -> SongJks {
    let strofy = texty
        .iter()
        .enumerate()
        .map(|(i, t)| StrofaJKS { id, cislo_strofy: i as i32, typ_piesne: Some(typ), text: t.to_string() })
        .collect();
    SongJks::new(id, texty.len() as i32 - 1, strofy, typ)
}

fn databaza() -> SongManager {
    let mut m = SongManager::new();
    m.add_song(piesen(4, TypPiesne::JKS(JKSTypPiesne::Post), &["Pôstna"]));
    m.add_song(piesen(9, TypPiesne::Hymna, &["Hymna"]));
    m
}

#[test]
fn existujuce_cislo_podla_typu() {
    let m = databaza();
    assert!(song_id_existing(TypPiesne::JKS(JKSTypPiesne::Advent), &m, 4));
    assert!(!song_id_existing(TypPiesne::Hymna, &m, 4));
    assert!(song_id_existing(TypPiesne::Hymna, &m, 9));
    assert!(!song_id_existing(TypPiesne::Taize, &m, 9));
    assert!(!song_id_existing(TypPiesne::JKS(JKSTypPiesne::Post), &m, 9));
}

#[test]
fn mazanie_len_po_potvrdeni() {
    let mut m = databaza();
    let p = piesen(9, TypPiesne::Hymna, &["x"]);
    assert!(!fo_delete_song(&mut m, &p, false));
    assert_eq!(m.piesne.len(), 2);
    assert!(fo_delete_song(&mut m, &p, true));
    assert_eq!(m.piesne.len(), 1);
    assert_eq!(m.piesne[0].id, 4);
}

#[test]
fn subor_na_upravu() {
    let p = piesen(1, TypPiesne::Hymna, &["Názov", "prvý riadok\ndruhý riadok"]);
    assert_eq!(text_na_upravu(&p), "Názov\n\nprvý riadok\ndruhý riadok\n\n");
}

fn texty(obsah: &str) -> Vec<String> {
    nacitaj_texty_strof(obsah).iter().map(|v| v.iter().collect()).collect()
}

#[test]
fn citanie_strof_zo_suboru() {
    assert_eq!(texty("A\nB\n\n  \nC\r\n"), vec!["A\nB", "C"]);
    assert_eq!(texty(""), Vec::<String>::new());
    assert_eq!(texty("\n\n\n"), Vec::<String>::new());
    assert_eq!(texty("jedna"), vec!["jedna"]);
    assert_eq!(texty(" x \n\t\ny"), vec![" x ", "y"]);
}

#[test]
fn upravena_piesen_sa_nacita_rovnako() {
    let p = piesen(1, TypPiesne::Hymna, &["Názov", "prvý riadok\ndruhý riadok", "tretia"]);
    let obsah = text_na_upravu(&p);
    assert_eq!(texty(&obsah), vec!["Názov", "prvý riadok\ndruhý riadok", "tretia"]);
}

#[test]
fn nova_verzia_nahradi_povodnu() {
    let mut m = databaza();
    let stara = piesen(9, TypPiesne::Hymna, &["Hymna"]);
    let nova = nacitaj_zo_suboru(&mut m, &stara, "Hymna nová\n\nsloha 1\nriadok 2\n\n\nsloha 2\n");
    assert_eq!(nova.id, 9);
    assert_eq!(nova.pocet_strof, 2);
    let t: Vec<(i32, &str)> = nova.strofy.iter().map(|s| (s.cislo_strofy, s.text.as_str())).collect();
    assert_eq!(t, vec![(0, "Hymna nová"), (1, "sloha 1\nriadok 2"), (2, "sloha 2")]);
    assert!(nova.strofy.iter().all(|s| s.typ_piesne == Some(TypPiesne::Hymna) && s.id == 9));
    assert_eq!(m.piesne.len(), 2);
    let v = m.get_song_by_id(9, TypPiesne::Hymna).unwrap();
    assert_eq!(v.strofy.len(), 3);
    // nová pesnička, ktorá ešte nebola v zozname, sa pridá
    let pridana = nacitaj_zo_suboru(&mut m, &SongJks::new(2, 0, vec![], TypPiesne::Taize), "T");
    assert_eq!(pridana.pocet_strof, 0);
    let ids: Vec<i32> = m.piesne.iter().map(|p| p.id).collect();
    assert_eq!(ids, vec![2, 4, 9]);
    let prazdna = nacitaj_zo_suboru(&mut m, &SongJks::new(5, 0, vec![], TypPiesne::Zalm), "");
    assert_eq!(prazdna.pocet_strof, -1);
    assert!(prazdna.strofy.is_empty());
}

#[test]
fn uprava_bez_zmeny_zachova_piesen_a_zoznam() {
    let mut m = databaza();
    m.add_song(piesen(9, TypPiesne::Taize, &["Taizé", "raz\ndva"]));
    let povodna = piesen(9, TypPiesne::Hymna, &["Hymna"]);
    let obsah = text_na_upravu(&m.piesne[1]);
    let r = nacitaj_zo_suboru(&mut m, &povodna, &obsah);
    let t: Vec<(i32, &str, Option<TypPiesne>)> =
        r.strofy.iter().map(|s| (s.cislo_strofy, s.text.as_str(), s.typ_piesne)).collect();
    assert_eq!(t, vec![(0, "Hymna", Some(TypPiesne::Hymna))]);
    assert_eq!(r.pocet_strof, 0);
    let poradie: Vec<(i32, TypPiesne)> = m.piesne.iter().map(|p| (p.id, p.typ_pesnicky)).collect();
    assert_eq!(
        poradie,
        vec![(4, TypPiesne::JKS(JKSTypPiesne::Post)), (9, TypPiesne::Taize), (9, TypPiesne::Hymna)]
    );
    let mut m2 = databaza();
    m2.add_song(piesen(9, TypPiesne::Taize, &["Taizé", "raz\ndva"]));
    let taize = piesen(9, TypPiesne::Taize, &["Taizé", "raz\ndva"]);
    let r2 = nacitaj_zo_suboru(&mut m2, &taize, &text_na_upravu(&taize));
    assert_eq!(r2.strofy[1].text, "raz\ndva");
    let poradie: Vec<(i32, TypPiesne)> = m2.piesne.iter().map(|p| (p.id, p.typ_pesnicky)).collect();
    assert_eq!(poradie, vec![(4, TypPiesne::JKS(JKSTypPiesne::Post)), (9, TypPiesne::Hymna), (9, TypPiesne::Taize)]);
}
