use jks_premietanie::db::{db_insert_song, db_load_all};
use jks_premietanie::library_jks::{SongJks, StrofaJKS};
use jks_premietanie::model::JksStrofaDB;
use jks_premietanie::typ::{JKSTypPiesne, TypPiesne};

fn strofa(id: i32, cislo: i32, typ: Option<TypPiesne>, text: &str) -> StrofaJKS {
    StrofaJKS { id, cislo_strofy: cislo, typ_piesne: typ, text: text.to_string() }
}

fn riadok(id: i32, cislo: i32, typ: Option<&str>, text: &str) -> JksStrofaDB {
    JksStrofaDB { row_id: None, id, cislo_stofy: cislo, typ_piesne: typ.map(|t| t.to_string()), text: text.to_string() }
}

#[test]
fn riadky_ulozenej_piesne() {
    let p = SongJks::new(
        7,
        2,
        vec![
            strofa(7, 0, None, "Názov"),
            strofa(7, 1, Some(TypPiesne::Taize), "prvá"),
            strofa(7, 2, None, "druhá"),
        ],
        TypPiesne::JKS(JKSTypPiesne::Vianoce),
    );
    let r = db_insert_song(&p);
    assert_eq!(r.len(), 3);
    assert_eq!(r[0].typ_piesne.as_deref(), Some("Vianoce"));
    assert_eq!(r[1].typ_piesne, None);
    assert_eq!(r[2].typ_piesne, None);
    for (i, x) in r.iter().enumerate() {
        assert_eq!(x.row_id, None);
        assert_eq!(x.id, 7);
        assert_eq!(x.cislo_stofy, i as i32);
    }
    assert_eq!(r[2].text, "druhá");
}

#[test]
fn ulozena_piesen_sa_nacita_spat() {
    let p = SongJks::new(
        15,
        1,
        vec![strofa(15, 0, None, "Hore srdcia"), strofa(15, 1, None, "sloha")],
        TypPiesne::Mladeznicka,
    );
    let m = db_load_all(db_insert_song(&p));
    assert_eq!(m.piesne.len(), 1);
    let q = &m.piesne[0];
    assert_eq!(q.id, 15);
    assert_eq!(q.typ_pesnicky, TypPiesne::Mladeznicka);
    assert_eq!(q.pocet_strof, 1);
    assert_eq!(q.strofy.len(), 2);
    assert_eq!(q.strofy[0].typ_piesne, Some(TypPiesne::Mladeznicka));
    assert_eq!(q.strofy[1].typ_piesne, None);
    assert_eq!(q.strofy[1].text, "sloha");
}

#[test]
fn nacitanie_zoskupi_podla_cisla() {
    let rows = vec![
        riadok(3, 0, Some("Advent"), "Rorate"),
        riadok(1, 0, None, "Bez typu"),
        riadok(3, 1, None, "sloha 1"),
        riadok(1, 1, Some("Hymna"), "s1"),
        riadok(2, 1, Some("Žalm"), "len sloha"),
        riadok(2, 0, Some("Neznámy"), "nazov"),
    ];
    let m = db_load_all(rows);
    let ids: Vec<i32> = m.piesne.iter().map(|p| p.id).collect();
    assert_eq!(ids, vec![1, 2, 3]);
    // typ z prvej strofy s číslom 0, inak Hymna
    assert_eq!(m.piesne[0].typ_pesnicky, TypPiesne::Hymna);
    assert_eq!(m.piesne[1].typ_pesnicky, TypPiesne::Hymna);
    assert_eq!(m.piesne[2].typ_pesnicky, TypPiesne::JKS(JKSTypPiesne::Advent));
    assert_eq!(m.piesne[1].strofy[0].text, "len sloha");
    assert_eq!(m.piesne[1].strofy[1].typ_piesne, None);
    assert_eq!(m.piesne[2].pocet_strof, 1);
    assert!(db_load_all(vec![]).piesne.is_empty());
}

#[test]
fn riadok_a_strofa() {
    let s = strofa(4, 2, Some(TypPiesne::Zalm), "t");
    let r = JksStrofaDB::from_strofa(&s);
    assert_eq!(r.typ_piesne.as_deref(), Some("Žalm"));
    let spat = StrofaJKS::from_db(&r);
    assert_eq!((spat.id, spat.cislo_strofy, spat.typ_piesne, spat.text.as_str()), (4, 2, Some(TypPiesne::Zalm), "t"));
    let nezname = StrofaJKS::from_db(&riadok(1, 0, Some("xyz"), "a"));
    assert_eq!(nezname.typ_piesne, None);
}
