use jks_premietanie::import::{parsuj_riadok, zoskup_import, RiadokCsv};
use jks_premietanie::library_jks::StrofaJKS;
use jks_premietanie::typ::{JKSTypPiesne, TypPiesne};

fn strofa_riadku(riadok: &str) -> (StrofaJKS, Option<String>) {
    match parsuj_riadok(riadok) {
        RiadokCsv::Strofa { strofa, neznamy_typ } => (strofa, neznamy_typ),
        ine => panic!("čakal som strofu, mám {:?}", ine),
    }
}

#[test]
fn rozbor_riadku_so_strofou() {
    let (s, n) = strofa_riadku("12,0,Advent,\"Rorate coeli\"");
    assert_eq!((s.id, s.cislo_strofy, s.typ_piesne), (12, 0, Some(TypPiesne::JKS(JKSTypPiesne::Advent))));
    assert_eq!(s.text, "Rorate coeli");
    assert_eq!(n, None);
    let (s, _) = strofa_riadku("  3 , 2 , none , \"a, b\\nc\"  ");
    assert_eq!((s.id, s.cislo_strofy, s.typ_piesne), (3, 2, None));
    assert_eq!(s.text, "a, b\nc");
    let (s, _) = strofa_riadku("3,1,NONE,x");
    assert_eq!(s.typ_piesne, None);
    let (s, n) = strofa_riadku("5,1,\"Vianočné\",text");
    assert_eq!(s.typ_piesne, None);
    assert_eq!(n, Some("Vianočné".to_string()));
    let (s, _) = strofa_riadku("5,1,\"Žalm\",text,navyše");
    assert_eq!(s.typ_piesne, Some(TypPiesne::Zalm));
    assert_eq!(s.text, "text");
}

#[test]
fn rozbor_chybnych_riadkov() {
    assert!(matches!(parsuj_riadok("   "), RiadokCsv::Prazdny));
    assert!(matches!(parsuj_riadok(""), RiadokCsv::Prazdny));
    match parsuj_riadok("1, 2,Hymna") {
        RiadokCsv::MaloStlpcov(v) => assert_eq!(v, vec!["1", "2", "Hymna"]),
        ine => panic!("{:?}", ine),
    }
    match parsuj_riadok("x1,0,Hymna,t") {
        RiadokCsv::ZleId(s) => assert_eq!(s, "x1"),
        ine => panic!("{:?}", ine),
    }
    match parsuj_riadok("1,jedna,Hymna,t") {
        RiadokCsv::ZleCisloStrofy(s) => assert_eq!(s, "jedna"),
        ine => panic!("{:?}", ine),
    }
    // čiarka v úvodzovkách nedelí stĺpec
    match parsuj_riadok("1,\"0,5\",Hymna") {
        RiadokCsv::MaloStlpcov(v) => assert_eq!(v, vec!["1", "\"0,5\"", "Hymna"]),
        ine => panic!("{:?}", ine),
    }
}

fn s(id: i32, cislo: i32, typ: Option<TypPiesne>, text: &str) -> StrofaJKS {
    StrofaJKS { id, cislo_strofy: cislo, typ_piesne: typ, text: text.to_string() }
}

#[test]
fn zoskupenie_strof_do_piesni() {
    let strofy = vec![
        s(20, 2, None, "b2"),
        s(10, 0, None, "a0"),
        s(20, 0, Some(TypPiesne::Taize), "b0"),
        s(10, 1, Some(TypPiesne::Zalm), "a1"),
        s(20, 1, Some(TypPiesne::Hymna), "b1"),
        s(20, 1, None, "b1 druhá"),
        s(30, 5, None, "c5"),
    ];
    let p = zoskup_import(strofy);
    let ids: Vec<i32> = p.iter().map(|x| x.id).collect();
    assert_eq!(ids, vec![10, 20, 30]);
    let texty: Vec<&str> = p[1].strofy.iter().map(|x| x.text.as_str()).collect();
    assert_eq!(texty, vec!["b0", "b1", "b1 druhá", "b2"]);
    assert_eq!(p[1].pocet_strof, 3);
    // typ: prvá strofa v poradí súboru, ktorá typ má
    assert_eq!(p[1].typ_pesnicky, TypPiesne::Taize);
    assert_eq!(p[0].typ_pesnicky, TypPiesne::Zalm);
    assert_eq!(p[2].typ_pesnicky, TypPiesne::Hymna);
    assert_eq!(p[2].pocet_strof, 0);
    assert!(zoskup_import(vec![]).is_empty());
}
