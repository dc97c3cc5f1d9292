use jks_premietanie::popups::{
    vyhodnot_id, vyhodnot_typ, vyhodnot_volbu, vyzva_monitora, vyzva_typu, InfoMonitora, Volba,
    VolbaTypu,
};
use jks_premietanie::typ::{JKSTypPiesne, TypPiesne};

#[test]
fn volba_z_ponuky() {
    assert_eq!(vyhodnot_volbu("  2 \n", 3), Volba::Cislo(2));
    assert_eq!(vyhodnot_volbu("3", 3), Volba::Cislo(3));
    assert_eq!(vyhodnot_volbu("+1", 3), Volba::Cislo(1));
    assert_eq!(vyhodnot_volbu("0", 3), Volba::Zla);
    assert_eq!(vyhodnot_volbu("4", 3), Volba::Zla);
    assert_eq!(vyhodnot_volbu("-1", 3), Volba::Zla);
    assert_eq!(vyhodnot_volbu("dva", 3), Volba::Zla);
    assert_eq!(vyhodnot_volbu("   ", 3), Volba::Prazdna);
    assert_eq!(vyhodnot_volbu("", 0), Volba::Prazdna);
    assert_eq!(vyhodnot_volbu("1", 0), Volba::Zla);
}

#[test]
fn volba_typu() {
    assert_eq!(vyhodnot_typ("1"), VolbaTypu::Typ(TypPiesne::AntifonaSurin));
    assert_eq!(vyhodnot_typ(" 8 "), VolbaTypu::Typ(TypPiesne::JKS(JKSTypPiesne::Advent)));
    assert_eq!(vyhodnot_typ("28"), VolbaTypu::Typ(TypPiesne::JKS(JKSTypPiesne::Ofertorium)));
    assert_eq!(vyhodnot_typ("29"), VolbaTypu::Zla);
    assert_eq!(vyhodnot_typ(""), VolbaTypu::Prazdna);
}

#[test]
fn cislo_novej_piesne() {
    assert_eq!(vyhodnot_id(" 42\t"), Some(42));
    assert_eq!(vyhodnot_id("-3"), Some(-3));
    assert_eq!(vyhodnot_id("4 2"), None);
    assert_eq!(vyhodnot_id(""), None);
    assert_eq!(vyhodnot_id("99999999999"), None);
}

#[test]
fn vyzva_na_typ() {
    let v = vyzva_typu();
    assert!(v.starts_with("Vyber typ piesne (zadaj číslo):\n\n1: Antifona Šurin\n2: Antifona\n"));
    assert!(v.ends_with("27: Pred požehnaním\n28: Ofertórium\n"));
    assert_eq!(v.lines().count(), 2 + 28);
}

#[test]
fn vyzva_na_monitor() {
    let m = vec![
        InfoMonitora { nazov: Some("eDP-1".to_string()), x: 0, y: 0, sirka: 1920, vyska: 1080 },
        InfoMonitora { nazov: None, x: 1920, y: -40, sirka: 1280, vyska: 1024 },
    ];
    assert_eq!(
        vyzva_monitora(&m),
        "Vyber monitor (zadaj číslo):\n\n1: eDP-1\n   rozlíšenie: 1920 × 1080\n   pozícia: x=0, y=0\n\n2: <bez názvu> (externý)\n   rozlíšenie: 1280 × 1024\n   pozícia: x=1920, y=-40\n\n"
    );
    assert_eq!(vyzva_monitora(&vec![]), "Vyber monitor (zadaj číslo):\n\n");
}
