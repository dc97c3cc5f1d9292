//! Typy piesní: hlavné kategórie a liturgické podtypy JKS.
use vstd::prelude::*;
use crate::text::rovnake;

verus! {

/// Podtypy JKS pesničiek podľa liturgickej kategórie.
#[derive(Debug, Clone, Copy, PartialEq, Eq, Structural, Hash, PartialOrd, Ord)]
pub enum JKSTypPiesne {
    Advent,
    Vianoce,
    KNajsvMenuJezisovmu,
    Post,
    VelkaNoc,
    NaneboVstupeniePana,
    NaDuchaSvateho,
    NaNajsvatejsiuTrojicu,
    NaBozieTelo,
    KSrdcuJezisovmu,
    KSvatejOmsi,
    KNajsvaSviatostiOltarnej,
    Litanie,
    AntifonaKPM,
    KPanneMarii,
    KSvatym,
    ZaZomrelych,
    Kajuce,
    PiesnePrilezitostne,
    PredPozehnanim,
    Ofertorium,
}

/// Vysoká kategória typu pesničky (JKS podtyp, antifóna, Taizé atď.).
#[derive(Debug, Clone, Copy, PartialEq, Eq, Structural, Hash, PartialOrd, Ord)]
pub enum TypPiesne {
    JKS(JKSTypPiesne),
    AntifonaSurin,
    Antifona,
    Taize,
    Mladeznicka,
    Hymna,
    Zalm,
    Responz,
}

/// Zobrazovaný názov podtypu JKS (tak, ako je uložený v databáze).
pub open spec fn nazov_jks(t: JKSTypPiesne) -> Seq<char> {
    match t {
        JKSTypPiesne::Advent => "Advent"@,
        JKSTypPiesne::Vianoce => "Vianoce"@,
        JKSTypPiesne::KNajsvMenuJezisovmu => "k Najsv. Menu Ježišovmu"@,
        JKSTypPiesne::Post => "Pôst"@,
        JKSTypPiesne::VelkaNoc => "Veľká Noc"@,
        JKSTypPiesne::NaneboVstupeniePana => "Nanebovstúpenie Pána"@,
        JKSTypPiesne::NaDuchaSvateho => "Na Ducha Svätého"@,
        JKSTypPiesne::NaNajsvatejsiuTrojicu => "Na Najsvätejšiu Trojicu"@,
        JKSTypPiesne::NaBozieTelo => "Na Božie Telo"@,
        JKSTypPiesne::KSrdcuJezisovmu => "k Srdcu Ježišovmu"@,
        JKSTypPiesne::KSvatejOmsi => "k Svätej Omši"@,
        JKSTypPiesne::KNajsvaSviatostiOltarnej => "k Najsv. Sviatosti Oltárnej"@,
        JKSTypPiesne::Litanie => "Litánie"@,
        JKSTypPiesne::AntifonaKPM => "Antifona k Panne Márii"@,
        JKSTypPiesne::KPanneMarii => "k Panne Márii"@,
        JKSTypPiesne::KSvatym => "k Svätým"@,
        JKSTypPiesne::ZaZomrelych => "Za zomrelých"@,
        JKSTypPiesne::Kajuce => "Kajúce"@,
        JKSTypPiesne::PiesnePrilezitostne => "Príležitostné piesne"@,
        JKSTypPiesne::PredPozehnanim => "Pred požehnaním"@,
        JKSTypPiesne::Ofertorium => "Ofertórium"@,
    }
}

/// Zobrazovaný názov typu pesničky (tak, ako je uložený v databáze).
pub open spec fn nazov_typu(t: TypPiesne) -> Seq<char> {
    match t {
        TypPiesne::JKS(j) => nazov_jks(j),
        TypPiesne::AntifonaSurin => "Antifona Šurin"@,
        TypPiesne::Antifona => "Antifona"@,
        TypPiesne::Taize => "Taize"@,
        TypPiesne::Mladeznicka => "Mládežnícka"@,
        TypPiesne::Hymna => "Hymna"@,
        TypPiesne::Zalm => "Žalm"@,
        TypPiesne::Responz => "Responz"@,
    }
}

/// Typ pesničky podľa jej názvu v databáze; neznámy názov nemá typ.
pub open spec fn typ_z_nazvu(s: Seq<char>) -> Option<TypPiesne> {
    if s == "Žalm"@ {
        Some(TypPiesne::Zalm)
    } else if s == "Antifona Šurin"@ {
        Some(TypPiesne::AntifonaSurin)
    } else if s == "Mládežnícka"@ {
        Some(TypPiesne::Mladeznicka)
    } else if s == "Hymna"@ {
        Some(TypPiesne::Hymna)
    } else if s == "Antifona"@ {
        Some(TypPiesne::Antifona)
    } else if s == "Taize"@ {
        Some(TypPiesne::Taize)
    } else if s == "Responz"@ {
        Some(TypPiesne::Responz)
    } else if s == "Ofertórium"@ {
        Some(TypPiesne::JKS(JKSTypPiesne::Ofertorium))
    } else if s == "Advent"@ {
        Some(TypPiesne::JKS(JKSTypPiesne::Advent))
    } else if s == "Vianoce"@ {
        Some(TypPiesne::JKS(JKSTypPiesne::Vianoce))
    } else if s == "k Najsv. Menu Ježišovmu"@ {
        Some(TypPiesne::JKS(JKSTypPiesne::KNajsvMenuJezisovmu))
    } else if s == "Pôst"@ {
        Some(TypPiesne::JKS(JKSTypPiesne::Post))
    } else if s == "Veľká Noc"@ {
        Some(TypPiesne::JKS(JKSTypPiesne::VelkaNoc))
    } else if s == "Nanebovstúpenie Pána"@ {
        Some(TypPiesne::JKS(JKSTypPiesne::NaneboVstupeniePana))
    } else if s == "Na Ducha Svätého"@ {
        Some(TypPiesne::JKS(JKSTypPiesne::NaDuchaSvateho))
    } else if s == "Na Najsvätejšiu Trojicu"@ {
        Some(TypPiesne::JKS(JKSTypPiesne::NaNajsvatejsiuTrojicu))
    } else if s == "Na Božie Telo"@ {
        Some(TypPiesne::JKS(JKSTypPiesne::NaBozieTelo))
    } else if s == "k Srdcu Ježišovmu"@ {
        Some(TypPiesne::JKS(JKSTypPiesne::KSrdcuJezisovmu))
    } else if s == "k Svätej Omši"@ {
        Some(TypPiesne::JKS(JKSTypPiesne::KSvatejOmsi))
    } else if s == "k Najsv. Sviatosti Oltárnej"@ {
        Some(TypPiesne::JKS(JKSTypPiesne::KNajsvaSviatostiOltarnej))
    } else if s == "Litánie"@ {
        Some(TypPiesne::JKS(JKSTypPiesne::Litanie))
    } else if s == "Antifona k Panne Márii"@ {
        Some(TypPiesne::JKS(JKSTypPiesne::AntifonaKPM))
    } else if s == "k Panne Márii"@ {
        Some(TypPiesne::JKS(JKSTypPiesne::KPanneMarii))
    } else if s == "k Svätým"@ {
        Some(TypPiesne::JKS(JKSTypPiesne::KSvatym))
    } else if s == "Za zomrelých"@ {
        Some(TypPiesne::JKS(JKSTypPiesne::ZaZomrelych))
    } else if s == "Kajúce"@ {
        Some(TypPiesne::JKS(JKSTypPiesne::Kajuce))
    } else if s == "Príležitostné piesne"@ {
        Some(TypPiesne::JKS(JKSTypPiesne::PiesnePrilezitostne))
    } else if s == "Pred požehnaním"@ {
        Some(TypPiesne::JKS(JKSTypPiesne::PredPozehnanim))
    } else {
        None
    }
}

/// Všetky typy pesničiek v poradí používanom v aplikácii.
pub open spec fn vsetky_typy() -> Seq<TypPiesne> {
    seq![
        TypPiesne::AntifonaSurin,
        TypPiesne::Antifona,
        TypPiesne::Taize,
        TypPiesne::Mladeznicka,
        TypPiesne::Hymna,
        TypPiesne::Zalm,
        TypPiesne::Responz,
        TypPiesne::JKS(JKSTypPiesne::Advent),
        TypPiesne::JKS(JKSTypPiesne::Vianoce),
        TypPiesne::JKS(JKSTypPiesne::KNajsvMenuJezisovmu),
        TypPiesne::JKS(JKSTypPiesne::Post),
        TypPiesne::JKS(JKSTypPiesne::VelkaNoc),
        TypPiesne::JKS(JKSTypPiesne::NaneboVstupeniePana),
        TypPiesne::JKS(JKSTypPiesne::NaDuchaSvateho),
        TypPiesne::JKS(JKSTypPiesne::NaNajsvatejsiuTrojicu),
        TypPiesne::JKS(JKSTypPiesne::NaBozieTelo),
        TypPiesne::JKS(JKSTypPiesne::KSrdcuJezisovmu),
        TypPiesne::JKS(JKSTypPiesne::KSvatejOmsi),
        TypPiesne::JKS(JKSTypPiesne::KNajsvaSviatostiOltarnej),
        TypPiesne::JKS(JKSTypPiesne::Litanie),
        TypPiesne::JKS(JKSTypPiesne::AntifonaKPM),
        TypPiesne::JKS(JKSTypPiesne::KPanneMarii),
        TypPiesne::JKS(JKSTypPiesne::KSvatym),
        TypPiesne::JKS(JKSTypPiesne::ZaZomrelych),
        TypPiesne::JKS(JKSTypPiesne::Kajuce),
        TypPiesne::JKS(JKSTypPiesne::PiesnePrilezitostne),
        TypPiesne::JKS(JKSTypPiesne::PredPozehnanim),
        TypPiesne::JKS(JKSTypPiesne::Ofertorium),
    ]
}

impl JKSTypPiesne {
    /// Názov podtypu, ako ho zobrazuje `Display`.
    pub fn nazov(&self) -> (r: &'static str)
        ensures
            r@ == nazov_jks(*self),
    {
        match self {
            JKSTypPiesne::Advent => "Advent",
            JKSTypPiesne::Vianoce => "Vianoce",
            JKSTypPiesne::KNajsvMenuJezisovmu => "k Najsv. Menu Ježišovmu",
            JKSTypPiesne::Post => "Pôst",
            JKSTypPiesne::VelkaNoc => "Veľká Noc",
            JKSTypPiesne::NaneboVstupeniePana => "Nanebovstúpenie Pána",
            JKSTypPiesne::NaDuchaSvateho => "Na Ducha Svätého",
            JKSTypPiesne::NaNajsvatejsiuTrojicu => "Na Najsvätejšiu Trojicu",
            JKSTypPiesne::NaBozieTelo => "Na Božie Telo",
            JKSTypPiesne::KSrdcuJezisovmu => "k Srdcu Ježišovmu",
            JKSTypPiesne::KSvatejOmsi => "k Svätej Omši",
            JKSTypPiesne::KNajsvaSviatostiOltarnej => "k Najsv. Sviatosti Oltárnej",
            JKSTypPiesne::Litanie => "Litánie",
            JKSTypPiesne::AntifonaKPM => "Antifona k Panne Márii",
            JKSTypPiesne::KPanneMarii => "k Panne Márii",
            JKSTypPiesne::KSvatym => "k Svätým",
            JKSTypPiesne::ZaZomrelych => "Za zomrelých",
            JKSTypPiesne::Kajuce => "Kajúce",
            JKSTypPiesne::PiesnePrilezitostne => "Príležitostné piesne",
            JKSTypPiesne::PredPozehnanim => "Pred požehnaním",
            JKSTypPiesne::Ofertorium => "Ofertórium",
        }
    }
}

impl TypPiesne {
    /// Názov typu, ako ho zobrazuje `Display`.
    pub fn nazov(&self) -> (r: &'static str)
        ensures
            r@ == nazov_typu(*self),
    {
        match self {
            TypPiesne::JKS(j) => j.nazov(),
            TypPiesne::AntifonaSurin => "Antifona Šurin",
            TypPiesne::Antifona => "Antifona",
            TypPiesne::Taize => "Taize",
            TypPiesne::Mladeznicka => "Mládežnícka",
            TypPiesne::Hymna => "Hymna",
            TypPiesne::Zalm => "Žalm",
            TypPiesne::Responz => "Responz",
        }
    }

    /// Vytvorí typ pesničky z textu tak, ako je uložený v databáze.
    pub fn from_str_db(name: &str) -> (r: Option<TypPiesne>)
        ensures
            r == typ_z_nazvu(name@),
    {
        if rovnake(name, "Žalm") {
            return Some(TypPiesne::Zalm);
        }
        if rovnake(name, "Antifona Šurin") {
            return Some(TypPiesne::AntifonaSurin);
        }
        if rovnake(name, "Mládežnícka") {
            return Some(TypPiesne::Mladeznicka);
        }
        if rovnake(name, "Hymna") {
            return Some(TypPiesne::Hymna);
        }
        if rovnake(name, "Antifona") {
            return Some(TypPiesne::Antifona);
        }
        if rovnake(name, "Taize") {
            return Some(TypPiesne::Taize);
        }
        if rovnake(name, "Responz") {
            return Some(TypPiesne::Responz);
        }
        if rovnake(name, "Ofertórium") {
            return Some(TypPiesne::JKS(JKSTypPiesne::Ofertorium));
        }
        if rovnake(name, "Advent") {
            return Some(TypPiesne::JKS(JKSTypPiesne::Advent));
        }
        if rovnake(name, "Vianoce") {
            return Some(TypPiesne::JKS(JKSTypPiesne::Vianoce));
        }
        if rovnake(name, "k Najsv. Menu Ježišovmu") {
            return Some(TypPiesne::JKS(JKSTypPiesne::KNajsvMenuJezisovmu));
        }
        if rovnake(name, "Pôst") {
            return Some(TypPiesne::JKS(JKSTypPiesne::Post));
        }
        if rovnake(name, "Veľká Noc") {
            return Some(TypPiesne::JKS(JKSTypPiesne::VelkaNoc));
        }
        if rovnake(name, "Nanebovstúpenie Pána") {
            return Some(TypPiesne::JKS(JKSTypPiesne::NaneboVstupeniePana));
        }
        if rovnake(name, "Na Ducha Svätého") {
            return Some(TypPiesne::JKS(JKSTypPiesne::NaDuchaSvateho));
        }
        if rovnake(name, "Na Najsvätejšiu Trojicu") {
            return Some(TypPiesne::JKS(JKSTypPiesne::NaNajsvatejsiuTrojicu));
        }
        if rovnake(name, "Na Božie Telo") {
            return Some(TypPiesne::JKS(JKSTypPiesne::NaBozieTelo));
        }
        if rovnake(name, "k Srdcu Ježišovmu") {
            return Some(TypPiesne::JKS(JKSTypPiesne::KSrdcuJezisovmu));
        }
        if rovnake(name, "k Svätej Omši") {
            return Some(TypPiesne::JKS(JKSTypPiesne::KSvatejOmsi));
        }
        if rovnake(name, "k Najsv. Sviatosti Oltárnej") {
            return Some(TypPiesne::JKS(JKSTypPiesne::KNajsvaSviatostiOltarnej));
        }
        if rovnake(name, "Litánie") {
            return Some(TypPiesne::JKS(JKSTypPiesne::Litanie));
        }
        if rovnake(name, "Antifona k Panne Márii") {
            return Some(TypPiesne::JKS(JKSTypPiesne::AntifonaKPM));
        }
        if rovnake(name, "k Panne Márii") {
            return Some(TypPiesne::JKS(JKSTypPiesne::KPanneMarii));
        }
        if rovnake(name, "k Svätým") {
            return Some(TypPiesne::JKS(JKSTypPiesne::KSvatym));
        }
        if rovnake(name, "Za zomrelých") {
            return Some(TypPiesne::JKS(JKSTypPiesne::ZaZomrelych));
        }
        if rovnake(name, "Kajúce") {
            return Some(TypPiesne::JKS(JKSTypPiesne::Kajuce));
        }
        if rovnake(name, "Príležitostné piesne") {
            return Some(TypPiesne::JKS(JKSTypPiesne::PiesnePrilezitostne));
        }
        if rovnake(name, "Pred požehnaním") {
            return Some(TypPiesne::JKS(JKSTypPiesne::PredPozehnanim));
        }
        None
    }

    /// Vráti všetky typy pesničiek v poradí používanom v aplikácii.
    pub fn all() -> (r: Vec<TypPiesne>)
        ensures
            r@ == vsetky_typy(),
    {
        let r = vec![
            TypPiesne::AntifonaSurin,
            TypPiesne::Antifona,
            TypPiesne::Taize,
            TypPiesne::Mladeznicka,
            TypPiesne::Hymna,
            TypPiesne::Zalm,
            TypPiesne::Responz,
            TypPiesne::JKS(JKSTypPiesne::Advent),
            TypPiesne::JKS(JKSTypPiesne::Vianoce),
            TypPiesne::JKS(JKSTypPiesne::KNajsvMenuJezisovmu),
            TypPiesne::JKS(JKSTypPiesne::Post),
            TypPiesne::JKS(JKSTypPiesne::VelkaNoc),
            TypPiesne::JKS(JKSTypPiesne::NaneboVstupeniePana),
            TypPiesne::JKS(JKSTypPiesne::NaDuchaSvateho),
            TypPiesne::JKS(JKSTypPiesne::NaNajsvatejsiuTrojicu),
            TypPiesne::JKS(JKSTypPiesne::NaBozieTelo),
            TypPiesne::JKS(JKSTypPiesne::KSrdcuJezisovmu),
            TypPiesne::JKS(JKSTypPiesne::KSvatejOmsi),
            TypPiesne::JKS(JKSTypPiesne::KNajsvaSviatostiOltarnej),
            TypPiesne::JKS(JKSTypPiesne::Litanie),
            TypPiesne::JKS(JKSTypPiesne::AntifonaKPM),
            TypPiesne::JKS(JKSTypPiesne::KPanneMarii),
            TypPiesne::JKS(JKSTypPiesne::KSvatym),
            TypPiesne::JKS(JKSTypPiesne::ZaZomrelych),
            TypPiesne::JKS(JKSTypPiesne::Kajuce),
            TypPiesne::JKS(JKSTypPiesne::PiesnePrilezitostne),
            TypPiesne::JKS(JKSTypPiesne::PredPozehnanim),
            TypPiesne::JKS(JKSTypPiesne::Ofertorium),
        ];
        assert(r@ =~= vsetky_typy());
        r
    }
}

/// Názov každého typu sa dá prečítať späť: `from_str_db` na texte, ktorý
/// vypisuje `Display`, vráti ten istý typ.
pub proof fn zakon_nazov_a_spat(t: TypPiesne)
    ensures
        typ_z_nazvu(nazov_typu(t)) == Some(t),
{
    reveal_strlit("Advent");
    assert("Advent"@.len() == 6);
    reveal_strlit("Vianoce");
    assert("Vianoce"@.len() == 7);
    reveal_strlit("k Najsv. Menu Ježišovmu");
    assert("k Najsv. Menu Ježišovmu"@.len() == 23);
    reveal_strlit("Pôst");
    assert("Pôst"@.len() == 4);
    reveal_strlit("Veľká Noc");
    assert("Veľká Noc"@.len() == 9);
    reveal_strlit("Nanebovstúpenie Pána");
    assert("Nanebovstúpenie Pána"@.len() == 20);
    reveal_strlit("Na Ducha Svätého");
    assert("Na Ducha Svätého"@.len() == 16);
    reveal_strlit("Na Najsvätejšiu Trojicu");
    assert("Na Najsvätejšiu Trojicu"@.len() == 23);
    reveal_strlit("Na Božie Telo");
    assert("Na Božie Telo"@.len() == 13);
    reveal_strlit("k Srdcu Ježišovmu");
    assert("k Srdcu Ježišovmu"@.len() == 17);
    reveal_strlit("k Svätej Omši");
    assert("k Svätej Omši"@.len() == 13);
    reveal_strlit("k Najsv. Sviatosti Oltárnej");
    assert("k Najsv. Sviatosti Oltárnej"@.len() == 27);
    reveal_strlit("Litánie");
    assert("Litánie"@.len() == 7);
    reveal_strlit("Antifona k Panne Márii");
    assert("Antifona k Panne Márii"@.len() == 22);
    reveal_strlit("k Panne Márii");
    assert("k Panne Márii"@.len() == 13);
    reveal_strlit("k Svätým");
    assert("k Svätým"@.len() == 8);
    reveal_strlit("Za zomrelých");
    assert("Za zomrelých"@.len() == 12);
    reveal_strlit("Kajúce");
    assert("Kajúce"@.len() == 6);
    reveal_strlit("Príležitostné piesne");
    assert("Príležitostné piesne"@.len() == 20);
    reveal_strlit("Pred požehnaním");
    assert("Pred požehnaním"@.len() == 15);
    reveal_strlit("Ofertórium");
    assert("Ofertórium"@.len() == 10);
    reveal_strlit("Antifona Šurin");
    assert("Antifona Šurin"@.len() == 14);
    reveal_strlit("Antifona");
    assert("Antifona"@.len() == 8);
    reveal_strlit("Taize");
    assert("Taize"@.len() == 5);
    reveal_strlit("Mládežnícka");
    assert("Mládežnícka"@.len() == 11);
    reveal_strlit("Hymna");
    assert("Hymna"@.len() == 5);
    reveal_strlit("Žalm");
    assert("Žalm"@.len() == 4);
    reveal_strlit("Responz");
    assert("Responz"@.len() == 7);
    assert("Advent"@[0] == 'A');
    assert("Antifona"@[0] == 'A');
    assert("Hymna"@[0] == 'H');
    assert("Kajúce"@[0] == 'K');
    assert("Litánie"@[0] == 'L');
    assert("Na Božie Telo"@[0] == 'N');
    assert("Na Najsvätejšiu Trojicu"@[0] == 'N');
    assert("Nanebovstúpenie Pána"@[0] == 'N');
    assert("Príležitostné piesne"@[0] == 'P');
    assert("Pôst"@[0] == 'P');
    assert("Responz"@[0] == 'R');
    assert("Taize"@[0] == 'T');
    assert("Vianoce"@[0] == 'V');
    assert("k Najsv. Menu Ježišovmu"@[0] == 'k');
    assert("k Panne Márii"@[0] == 'k');
    assert("k Panne Márii"@[2] == 'P');
    assert("k Svätej Omši"@[0] == 'k');
    assert("k Svätej Omši"@[2] == 'S');
    assert("k Svätým"@[0] == 'k');
    assert("Žalm"@[0] == 'Ž');
}

/// Text má typ iba vtedy, keď je presne názvom tohto typu.
pub proof fn zakon_nazov_jednoznacny(s: Seq<char>, t: TypPiesne)
    requires
        typ_z_nazvu(s) == Some(t),
    ensures
        s == nazov_typu(t),
{
}

/// Zoznam všetkých typov obsahuje každý typ práve raz.
pub proof fn zakon_vsetky_typy(t: TypPiesne)
    ensures
        vsetky_typy().contains(t),
        forall|i: int, j: int|
            0 <= i < j < vsetky_typy().len() ==> vsetky_typy()[i] != vsetky_typy()[j],
{
    let v = vsetky_typy();
    let i = match t {
        TypPiesne::AntifonaSurin => 0,
        TypPiesne::Antifona => 1,
        TypPiesne::Taize => 2,
        TypPiesne::Mladeznicka => 3,
        TypPiesne::Hymna => 4,
        TypPiesne::Zalm => 5,
        TypPiesne::Responz => 6,
        TypPiesne::JKS(JKSTypPiesne::Advent) => 7,
        TypPiesne::JKS(JKSTypPiesne::Vianoce) => 8,
        TypPiesne::JKS(JKSTypPiesne::KNajsvMenuJezisovmu) => 9,
        TypPiesne::JKS(JKSTypPiesne::Post) => 10,
        TypPiesne::JKS(JKSTypPiesne::VelkaNoc) => 11,
        TypPiesne::JKS(JKSTypPiesne::NaneboVstupeniePana) => 12,
        TypPiesne::JKS(JKSTypPiesne::NaDuchaSvateho) => 13,
        TypPiesne::JKS(JKSTypPiesne::NaNajsvatejsiuTrojicu) => 14,
        TypPiesne::JKS(JKSTypPiesne::NaBozieTelo) => 15,
        TypPiesne::JKS(JKSTypPiesne::KSrdcuJezisovmu) => 16,
        TypPiesne::JKS(JKSTypPiesne::KSvatejOmsi) => 17,
        TypPiesne::JKS(JKSTypPiesne::KNajsvaSviatostiOltarnej) => 18,
        TypPiesne::JKS(JKSTypPiesne::Litanie) => 19,
        TypPiesne::JKS(JKSTypPiesne::AntifonaKPM) => 20,
        TypPiesne::JKS(JKSTypPiesne::KPanneMarii) => 21,
        TypPiesne::JKS(JKSTypPiesne::KSvatym) => 22,
        TypPiesne::JKS(JKSTypPiesne::ZaZomrelych) => 23,
        TypPiesne::JKS(JKSTypPiesne::Kajuce) => 24,
        TypPiesne::JKS(JKSTypPiesne::PiesnePrilezitostne) => 25,
        TypPiesne::JKS(JKSTypPiesne::PredPozehnanim) => 26,
        TypPiesne::JKS(JKSTypPiesne::Ofertorium) => 27,
    };
    assert(v[i] == t);
}

} // verus!
