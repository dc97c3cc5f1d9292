//! Riadok databázovej tabuľky `jks` a jeho prevod na strofu a späť.
use vstd::prelude::*;
use crate::library_jks::{StrofaJKS, StrofaV};
use crate::text::vlastny;
use crate::typ::{nazov_typu, typ_z_nazvu, zakon_nazov_a_spat, TypPiesne};

verus! {

/// Riadok tabuľky `jks` (jedna strofa; typ piesne je textom, `NULL` je `None`).
#[derive(Debug)]
pub struct JksStrofaDB {
    pub row_id: Option<i32>,
    pub id: i32,
    pub cislo_stofy: i32,
    pub typ_piesne: Option<String>,
    pub text: String,
}

/// Strofa, ktorú opisuje riadok databázy (neznámy názov typu znamená strofu bez typu).
pub open spec fn strofa_z_riadku(r: JksStrofaDB) -> StrofaV {
    StrofaV {
        id: r.id,
        cislo_strofy: r.cislo_stofy,
        typ_piesne: match r.typ_piesne {
            Some(s) => typ_z_nazvu(s@),
            None => None,
        },
        text: r.text@,
    }
}

/// Text typu v riadku databázy pre strofu s daným typom.
pub open spec fn typ_v_riadku(t: Option<TypPiesne>) -> Option<Seq<char>> {
    match t {
        Some(t) => Some(nazov_typu(t)),
        None => None,
    }
}

impl JksStrofaDB {
    /// Riadok na vloženie strofy do databázy (bez čísla riadku; typ ako jeho názov).
    pub fn from_strofa(s: &StrofaJKS) -> (r: JksStrofaDB)
        ensures
            r.row_id is None,
            r.id == s.id,
            r.cislo_stofy == s.cislo_strofy,
            match s.typ_piesne {
                Some(t) => r.typ_piesne matches Some(x) && x@ == nazov_typu(t),
                None => r.typ_piesne is None,
            },
            r.text@ == s.text@,
    {
        JksStrofaDB {
            row_id: None,
            id: s.id,
            cislo_stofy: s.cislo_strofy,
            typ_piesne: match s.typ_piesne {
                Some(t) => Some(vlastny(t.nazov())),
                None => None,
            },
            text: s.text.clone(),
        }
    }
}

impl StrofaJKS {
    /// Strofa z riadku databázy.
    pub fn from_db(db: &JksStrofaDB) -> (r: StrofaJKS)
        ensures
            r@ == strofa_z_riadku(*db),
    {
        let typ_piesne = match &db.typ_piesne {
            Some(s) => TypPiesne::from_str_db(s.as_str()),
            None => None,
        };
        StrofaJKS {
            id: db.id,
            cislo_strofy: db.cislo_stofy,
            typ_piesne,
            text: db.text.clone(),
        }
    }
}

/// Strofa zapísaná do databázy a prečítaná späť je tá istá strofa.
pub proof fn zakon_riadok_a_spat(s: StrofaJKS, r: JksStrofaDB)
    requires
        r.id == s.id,
        r.cislo_stofy == s.cislo_strofy,
        match s.typ_piesne {
            Some(t) => r.typ_piesne matches Some(x) && x@ == nazov_typu(t),
            None => r.typ_piesne is None,
        },
        r.text@ == s.text@,
    ensures
        strofa_z_riadku(r) == s@,
{
    match s.typ_piesne {
        Some(t) => {
            zakon_nazov_a_spat(t);
        },
        None => {},
    }
}

} // verus!
