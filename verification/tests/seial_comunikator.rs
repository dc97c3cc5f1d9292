use jks_premietanie::seial_comunikator::{Prikaz, StavPremietania};

#[test]
fn test_prikazy_serializacia() {
    assert_eq!(Prikaz::SpustiPremietanie.na_retazec(), "%$1$0$%");
    assert_eq!(Prikaz::VypniPremietanie.na_retazec(), "%$2$0$%");
    assert_eq!(Prikaz::PosliPiesen(5).na_retazec(), "%$3$5$%");
    assert_eq!(Prikaz::Zatmav.na_retazec(), "%$4$0$%");
    assert_eq!(
        Prikaz::PrepniNa {
            piesen: 3,
            sloha: 2
        }
        .na_retazec(),
        "%|3|2|%"
    );
}

#[test]
fn test_stav_default() {
    let stav = StavPremietania::default();
    assert_eq!(stav.cislo_pesnicky, 0);
    assert_eq!(stav.cislo_slohy, 0);
    assert!(!stav.blackscreen);
    assert!(!stav.premietanie_bezi);
}

use jks_premietanie::seial_comunikator::{kusy_spravy, najdi_esp32, InfoPortu, MAX_CHUNK};

#[test]
fn ostatne_prikazy_serializacia() {
    assert_eq!(Prikaz::Odtmav.na_retazec(), "%$5$0$%");
    assert_eq!(Prikaz::PosliPiesen(-12).na_retazec(), "%$3$-12$%");
    assert_eq!(Prikaz::PrepniNa { piesen: 140, sloha: 0 }.na_retazec(), "%|140|0|%");
}

#[test]
fn stav_po_prikazoch() {
    let mut s = StavPremietania::new();
    s.aplikuj(&Prikaz::SpustiPremietanie);
    assert!(s.premietanie_bezi);
    assert!(!s.blackscreen);
    s.aplikuj(&Prikaz::PosliPiesen(7));
    assert_eq!((s.cislo_pesnicky, s.cislo_slohy), (7, 0));
    s.aplikuj(&Prikaz::PrepniNa { piesen: 3, sloha: 2 });
    assert_eq!((s.cislo_pesnicky, s.cislo_slohy), (3, 2));
    s.aplikuj(&Prikaz::Zatmav);
    assert!(s.blackscreen);
    let pred = s;
    s.aplikuj(&Prikaz::PrepniNa { piesen: 4, sloha: 1 });
    assert!(s.blackscreen, "prepnutie nemení zatmavenie");
    s.aplikuj(&Prikaz::Odtmav);
    assert!(!s.blackscreen);
    assert_ne!(s, pred);
    s.aplikuj(&Prikaz::Zatmav);
    s.aplikuj(&Prikaz::SpustiPremietanie);
    assert!(!s.blackscreen, "spustenie zruší zatmavenie");
    s.aplikuj(&Prikaz::VypniPremietanie);
    assert!(!s.premietanie_bezi);
}

#[test]
fn zatmav_a_odtmav_sa_rusia() {
    let mut s = StavPremietania { cislo_pesnicky: 5, cislo_slohy: 3, blackscreen: false, premietanie_bezi: true };
    let pred = s;
    s.aplikuj(&Prikaz::Zatmav);
    s.aplikuj(&Prikaz::Odtmav);
    assert_eq!(s, pred);
}

#[test]
fn posuny_slohy_a_piesne() {
    let s = StavPremietania { cislo_pesnicky: 4, cislo_slohy: 0, blackscreen: false, premietanie_bezi: true };
    assert_eq!(s.dalsia_sloha(), Prikaz::PrepniNa { piesen: 4, sloha: 1 });
    assert_eq!(s.predchadzajuca_sloha(), Prikaz::PrepniNa { piesen: 4, sloha: 0 });
    assert_eq!(s.dalsia_piesen(), Prikaz::PrepniNa { piesen: 5, sloha: 0 });
    assert_eq!(s.predchadzajuca_piesen(), Prikaz::PrepniNa { piesen: 3, sloha: 0 });
    let nula = StavPremietania::new();
    assert_eq!(nula.predchadzajuca_piesen(), Prikaz::PrepniNa { piesen: 0, sloha: 0 });
    // sloha tam a späť
    let mut t = StavPremietania { cislo_pesnicky: 2, cislo_slohy: 3, blackscreen: false, premietanie_bezi: true };
    let pred = t;
    let p = t.dalsia_sloha();
    t.aplikuj(&p);
    let p = t.predchadzajuca_sloha();
    t.aplikuj(&p);
    assert_eq!(t, pred);
}

#[test]
fn delenie_spravy_na_kusy() {
    assert_eq!(MAX_CHUNK, 31);
    let msg = "a".repeat(70);
    let k = kusy_spravy(&msg);
    assert_eq!(k.len(), 3);
    assert_eq!(k[0], [b"a".repeat(31), b"\n".to_vec()].concat());
    assert_eq!(k[1].len(), 32);
    assert_eq!(k[2], [b"a".repeat(8), b"\n".to_vec()].concat());
    assert!(kusy_spravy("").is_empty());
    let presne = "b".repeat(31);
    assert_eq!(kusy_spravy(&presne).len(), 1);
}

#[test]
fn kus_s_rozdelenym_znakom_je_prazdny_riadok() {
    // 30 bajtov ASCII a potom dvojbajtové 'á': kus 31 bajtov nie je platné UTF-8
    let msg = format!("{}á{}", "x".repeat(30), "y");
    let k = kusy_spravy(&msg);
    assert_eq!(k.len(), 2);
    assert_eq!(k[0], b"\n".to_vec());
    assert_eq!(k[1], b"\n".to_vec());
    let ok = kusy_spravy("čau");
    assert_eq!(ok, vec!["čau\n".as_bytes().to_vec()]);
}

fn port(nazov: &str, vid: Option<u16>) -> InfoPortu {
    InfoPortu { port_name: nazov.to_string(), usb_vid: vid }
}

#[test]
fn hladanie_esp32_podla_vyrobcu() {
    let porty = vec![
        port("/dev/ttyS0", None),
        port("/dev/ttyUSB0", Some(0x0403)),
        port("/dev/ttyUSB1", Some(0x1A86)),
        port("/dev/ttyACM0", Some(0x303A)),
    ];
    assert_eq!(najdi_esp32(&porty), Some("/dev/ttyUSB1".to_string()));
    assert_eq!(najdi_esp32(&vec![port("/dev/ttyACM0", Some(0x303A))]), Some("/dev/ttyACM0".to_string()));
    assert_eq!(najdi_esp32(&vec![port("COM3", Some(0x10C4))]), Some("COM3".to_string()));
    assert_eq!(najdi_esp32(&vec![port("/dev/ttyS0", None), port("/dev/ttyUSB0", Some(0x0403))]), None);
    assert_eq!(najdi_esp32(&vec![]), None);
}
