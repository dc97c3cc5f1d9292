use jks_premietanie::typ::{JKSTypPiesne, TypPiesne};

#[test]
fn nazov_a_spat() {
    for t in TypPiesne::all() {
        assert_eq!(TypPiesne::from_str_db(t.nazov()), Some(t));
    }
}

#[test]
fn zname_nazvy() {
    assert_eq!(TypPiesne::from_str_db("Žalm"), Some(TypPiesne::Zalm));
    assert_eq!(TypPiesne::from_str_db("Ofertórium"), Some(TypPiesne::JKS(JKSTypPiesne::Ofertorium)));
    assert_eq!(TypPiesne::from_str_db("k Najsv. Menu Ježišovmu"), Some(TypPiesne::JKS(JKSTypPiesne::KNajsvMenuJezisovmu)));
    assert_eq!(TypPiesne::JKS(JKSTypPiesne::Post).nazov(), "Pôst");
    assert_eq!(JKSTypPiesne::ZaZomrelych.nazov(), "Za zomrelých");
    assert_eq!(TypPiesne::AntifonaSurin.nazov(), "Antifona Šurin");
}

#[test]
fn nezname_nazvy() {
    assert_eq!(TypPiesne::from_str_db(""), None);
    assert_eq!(TypPiesne::from_str_db("hymna"), None);
    assert_eq!(TypPiesne::from_str_db("Hymna "), None);
    assert_eq!(TypPiesne::from_str_db("Zalm"), None);
}

#[test]
fn vsetky_typy_raz_a_v_poradi() {
    let all = TypPiesne::all();
    assert_eq!(all.len(), 28);
    assert_eq!(all[0], TypPiesne::AntifonaSurin);
    assert_eq!(all[4], TypPiesne::Hymna);
    assert_eq!(all[7], TypPiesne::JKS(JKSTypPiesne::Advent));
    assert_eq!(all[27], TypPiesne::JKS(JKSTypPiesne::Ofertorium));
    for i in 0..all.len() {
        for j in (i + 1)..all.len() {
            assert_ne!(all[i], all[j]);
        }
    }
}
