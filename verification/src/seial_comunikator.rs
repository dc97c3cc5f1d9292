//! Protokol komunikácie s ESP32 cez sériový port: príkazy, stav premietania
//! a delenie správ na kusy. Samotný port obsluhuje aplikácia.
use vstd::prelude::*;
use vstd::string::StringSliceAdditionalSpecFns;
use vstd::utf8::valid_utf8;
use crate::text::{cislo_na_znaky, dec_int, retazec, znaky};

verus! {

/// Maximálna veľkosť jedného kusu správy (bajty).
pub const MAX_CHUNK: usize = 31;

/// Stav premietania – sleduje aktuálnu pieseň, slohu a stav zariadenia.
#[derive(Debug, Clone, Copy, PartialEq, Eq, Structural)]
pub struct StavPremietania {
    pub cislo_pesnicky: i32,
    pub cislo_slohy: i32,
    pub blackscreen: bool,
    pub premietanie_bezi: bool,
}

impl StavPremietania {
    /// Počiatočný stav: pieseň 0, sloha 0, bez zatmavenia, premietanie nebeží.
    pub fn new() -> (r: Self)
        ensures
            r.cislo_pesnicky == 0,
            r.cislo_slohy == 0,
            !r.blackscreen,
            !r.premietanie_bezi,
    {
        StavPremietania {
            cislo_pesnicky: 0,
            cislo_slohy: 0,
            blackscreen: false,
            premietanie_bezi: false,
        }
    }
}

impl Default for StavPremietania {
    fn default() -> (r: Self)
        ensures
            r == StavPremietania::new_spec(),
    {
        Self::new()
    }
}

impl StavPremietania {
    /// Počiatočný stav ako hodnota.
    pub open spec fn new_spec() -> StavPremietania {
        StavPremietania {
            cislo_pesnicky: 0,
            cislo_slohy: 0,
            blackscreen: false,
            premietanie_bezi: false,
        }
    }
}

/// Príkazy, ktoré sa posielajú na ESP32.
#[derive(Debug, Clone, Copy, PartialEq, Eq, Structural)]
pub enum Prikaz {
    /// %$1$0$% – spustenie premietania
    SpustiPremietanie,
    /// %$2$0$% – vypnutie premietania
    VypniPremietanie,
    /// %$3$x$% – pošli pieseň (číslo piesne)
    PosliPiesen(i32),
    /// %$4$0$% – zatmavenie obrazovky
    Zatmav,
    /// %$5$0$% – odtmavenie obrazovky
    Odtmav,
    /// %|x|y|% – prepnutie na pieseň x a slohu y
    PrepniNa { piesen: i32, sloha: i32 },
}

/// Riadiaci príkaz `%$c$0$%` s kódom `c`.
pub open spec fn riadiaci(c: char) -> Seq<char> {
    seq!['%', '$', c, '$', '0', '$', '%']
}

/// Text príkazu podľa protokolu.
pub open spec fn text_prikazu(p: Prikaz) -> Seq<char> {
    match p {
        Prikaz::SpustiPremietanie => riadiaci('1'),
        Prikaz::VypniPremietanie => riadiaci('2'),
        Prikaz::PosliPiesen(x) => seq!['%', '$', '3', '$'] + dec_int(x as int) + seq!['$', '%'],
        Prikaz::Zatmav => riadiaci('4'),
        Prikaz::Odtmav => riadiaci('5'),
        Prikaz::PrepniNa { piesen, sloha } => seq!['%', '|'] + dec_int(piesen as int) + seq!['|']
            + dec_int(sloha as int) + seq!['|', '%'],
    }
}

/// Stav po odoslaní príkazu.
pub open spec fn stav_po(s: StavPremietania, p: Prikaz) -> StavPremietania {
    match p {
        Prikaz::SpustiPremietanie => StavPremietania {
            premietanie_bezi: true,
            blackscreen: false,
            ..s
        },
        Prikaz::VypniPremietanie => StavPremietania { premietanie_bezi: false, ..s },
        Prikaz::PosliPiesen(x) => StavPremietania { cislo_pesnicky: x, cislo_slohy: 0, ..s },
        Prikaz::Zatmav => StavPremietania { blackscreen: true, ..s },
        Prikaz::Odtmav => StavPremietania { blackscreen: false, ..s },
        Prikaz::PrepniNa { piesen, sloha } => StavPremietania {
            cislo_pesnicky: piesen,
            cislo_slohy: sloha,
            ..s
        },
    }
}

/// Pridá znaky `t` na koniec `z`.
pub fn pridaj_znaky(z: &mut Vec<char>, t: &Vec<char>)
    ensures
        final(z)@ == old(z)@ + t@,
{
    let ghost zac = z@;
    let mut i: usize = 0;
    while i < t.len()
        invariant
            i <= t.len(),
            z@ == zac + t@.subrange(0, i as int),
        decreases t.len() - i,
    {
        proof {
            assert(t@.subrange(0, i + 1) =~= t@.subrange(0, i as int).push(t@[i as int]));
        }
        z.push(t[i]);
        i = i + 1;
    }
    assert(t@.subrange(0, t@.len() as int) =~= t@);
}

fn riadiaci_text(c: char) -> (r: String)
    ensures
        r@ == riadiaci(c),
{
    let z = vec!['%', '$', c, '$', '0', '$', '%'];
    assert(z@ =~= riadiaci(c));
    retazec(&z)
}

impl Prikaz {
    /// Serializuje príkaz na reťazec podľa protokolu.
    pub fn na_retazec(&self) -> (r: String)
        ensures
            r@ == text_prikazu(*self),
    {
        match self {
            Prikaz::SpustiPremietanie => riadiaci_text('1'),
            Prikaz::VypniPremietanie => riadiaci_text('2'),
            Prikaz::PosliPiesen(x) => {
                let mut z = vec!['%', '$', '3', '$'];
                pridaj_znaky(&mut z, &cislo_na_znaky(*x as i64));
                z.push('$');
                z.push('%');
                assert(z@ =~= text_prikazu(*self));
                retazec(&z)
            },
            Prikaz::Zatmav => riadiaci_text('4'),
            Prikaz::PrepniNa { piesen, sloha } => {
                let mut z = vec!['%', '|'];
                pridaj_znaky(&mut z, &cislo_na_znaky(*piesen as i64));
                z.push('|');
                pridaj_znaky(&mut z, &cislo_na_znaky(*sloha as i64));
                z.push('|');
                z.push('%');
                assert(z@ =~= text_prikazu(*self));
                retazec(&z)
            },
            Prikaz::Odtmav => riadiaci_text('5'),
        }
    }
}

impl StavPremietania {
    /// Aktualizuje stav tak, ako to robí odoslanie príkazu
    /// (stav sa mení pred zápisom na port, bez ohľadu na jeho výsledok).
    pub fn aplikuj(&mut self, prikaz: &Prikaz)
        ensures
            *final(self) == stav_po(*old(self), *prikaz),
    {
        match prikaz {
            Prikaz::SpustiPremietanie => {
                self.premietanie_bezi = true;
                self.blackscreen = false;
            },
            Prikaz::VypniPremietanie => {
                self.premietanie_bezi = false;
            },
            Prikaz::PosliPiesen(x) => {
                self.cislo_pesnicky = *x;
                self.cislo_slohy = 0;
            },
            Prikaz::Zatmav => {
                self.blackscreen = true;
            },
            Prikaz::PrepniNa { piesen, sloha } => {
                self.cislo_pesnicky = *piesen;
                self.cislo_slohy = *sloha;
            },
            Prikaz::Odtmav => {
                self.blackscreen = false;
            },
        }
    }

    /// Príkaz na prepnutie na nasledujúcu slohu tej istej piesne.
    pub fn dalsia_sloha(&self) -> (r: Prikaz)
        requires
            self.cislo_slohy < i32::MAX,
        ensures
            r == (Prikaz::PrepniNa { piesen: self.cislo_pesnicky, sloha: (self.cislo_slohy + 1) as i32 }),
    {
        Prikaz::PrepniNa { piesen: self.cislo_pesnicky, sloha: self.cislo_slohy + 1 }
    }

    /// Príkaz na prepnutie na predchádzajúcu slohu (najmenej 0).
    pub fn predchadzajuca_sloha(&self) -> (r: Prikaz)
        requires
            self.cislo_slohy > i32::MIN,
        ensures
            r == (Prikaz::PrepniNa {
                piesen: self.cislo_pesnicky,
                sloha: if self.cislo_slohy - 1 > 0 {
                    (self.cislo_slohy - 1) as i32
                } else {
                    0
                },
            }),
    {
        let s = self.cislo_slohy - 1;
        Prikaz::PrepniNa {
            piesen: self.cislo_pesnicky,
            sloha: if s > 0 {
                s
            } else {
                0
            },
        }
    }

    /// Príkaz na prepnutie na nasledujúcu pieseň (sloha 0).
    pub fn dalsia_piesen(&self) -> (r: Prikaz)
        requires
            self.cislo_pesnicky < i32::MAX,
        ensures
            r == (Prikaz::PrepniNa { piesen: (self.cislo_pesnicky + 1) as i32, sloha: 0 }),
    {
        Prikaz::PrepniNa { piesen: self.cislo_pesnicky + 1, sloha: 0 }
    }

    /// Príkaz na prepnutie na predchádzajúcu pieseň (najmenej 0, sloha 0).
    pub fn predchadzajuca_piesen(&self) -> (r: Prikaz)
        requires
            self.cislo_pesnicky > i32::MIN,
        ensures
            r == (Prikaz::PrepniNa {
                piesen: if self.cislo_pesnicky - 1 > 0 {
                    (self.cislo_pesnicky - 1) as i32
                } else {
                    0
                },
                sloha: 0,
            }),
    {
        let p = self.cislo_pesnicky - 1;
        Prikaz::PrepniNa {
            piesen: if p > 0 {
                p
            } else {
                0
            },
            sloha: 0,
        }
    }
}

/// Posun o slohu dopredu a späť vráti stav, ak bola sloha nezáporná.
pub proof fn zakon_sloha_tam_a_spat(s: StavPremietania)
    requires
        0 <= s.cislo_slohy < i32::MAX,
    ensures
        ({
            let s1 = stav_po(
                s,
                Prikaz::PrepniNa { piesen: s.cislo_pesnicky, sloha: (s.cislo_slohy + 1) as i32 },
            );
            let s2 = stav_po(
                s1,
                Prikaz::PrepniNa {
                    piesen: s1.cislo_pesnicky,
                    sloha: if s1.cislo_slohy - 1 > 0 {
                        (s1.cislo_slohy - 1) as i32
                    } else {
                        0
                    },
                },
            );
            s2 == s
        }),
{
}

/// Zatmavenie a odtmavenie sa navzájom rušia a nemenia pieseň ani slohu.
pub proof fn zakon_zatmav_odtmav(s: StavPremietania)
    requires
        !s.blackscreen,
    ensures
        stav_po(stav_po(s, Prikaz::Zatmav), Prikaz::Odtmav) == s,
        stav_po(s, Prikaz::Zatmav).cislo_pesnicky == s.cislo_pesnicky,
        stav_po(s, Prikaz::Zatmav).cislo_slohy == s.cislo_slohy,
{
}

/// Čo si stav premietania pamätá po každom príkaze: `PosliPiesen(x)` nastaví pieseň `x`
/// a slohu 0, `PrepniNa` nastaví pieseň aj slohu, zatmavenie a odtmavenie menia len
/// čiernu obrazovku, spustenie premietanie zapne a obrazovku odtmaví, vypnutie ho
/// len vypne; všetko ostatné ostáva.
pub proof fn zakon_stav_po_prikaze(s: StavPremietania, p: Prikaz)
    ensures
        ({
            let t = stav_po(s, p);
            match p {
                Prikaz::PosliPiesen(x) => {
                    &&& t.cislo_pesnicky == x
                    &&& t.cislo_slohy == 0
                    &&& t.blackscreen == s.blackscreen
                    &&& t.premietanie_bezi == s.premietanie_bezi
                },
                Prikaz::PrepniNa { piesen, sloha } => {
                    &&& t.cislo_pesnicky == piesen
                    &&& t.cislo_slohy == sloha
                    &&& t.blackscreen == s.blackscreen
                    &&& t.premietanie_bezi == s.premietanie_bezi
                },
                Prikaz::Zatmav => {
                    &&& t.blackscreen
                    &&& t.cislo_pesnicky == s.cislo_pesnicky
                    &&& t.cislo_slohy == s.cislo_slohy
                    &&& t.premietanie_bezi == s.premietanie_bezi
                },
                Prikaz::Odtmav => {
                    &&& !t.blackscreen
                    &&& t.cislo_pesnicky == s.cislo_pesnicky
                    &&& t.cislo_slohy == s.cislo_slohy
                    &&& t.premietanie_bezi == s.premietanie_bezi
                },
                Prikaz::SpustiPremietanie => {
                    &&& t.premietanie_bezi
                    &&& !t.blackscreen
                    &&& t.cislo_pesnicky == s.cislo_pesnicky
                    &&& t.cislo_slohy == s.cislo_slohy
                },
                Prikaz::VypniPremietanie => {
                    &&& !t.premietanie_bezi
                    &&& t.blackscreen == s.blackscreen
                    &&& t.cislo_pesnicky == s.cislo_pesnicky
                    &&& t.cislo_slohy == s.cislo_slohy
                },
            }
        }),
{
}

/// Ten istý príkaz odoslaný dvakrát za sebou zanechá rovnaký stav ako raz.
pub proof fn zakon_prikaz_dvakrat(s: StavPremietania, p: Prikaz)
    ensures
        stav_po(stav_po(s, p), p) == stav_po(s, p),
{
}

// ---------------------------------------------------------------------------
// Delenie správ na kusy

/// Rozdelenie postupnosti na kusy dĺžky `n` (posledný môže byť kratší).
pub open spec fn kusy<A>(s: Seq<A>, n: nat) -> Seq<Seq<A>>
    decreases s.len(),
{
    if s.len() == 0 || n == 0 {
        Seq::empty()
    } else if s.len() <= n {
        seq![s]
    } else {
        seq![s.take(n as int)] + kusy(s.skip(n as int), n)
    }
}

/// Kusy spolu dajú pôvodnú postupnosť; žiadny kus nie je prázdny ani dlhší ako `n`
/// a všetky okrem posledného majú presne `n` prvkov.
pub proof fn zakon_kusy<A>(s: Seq<A>, n: nat)
    requires
        n > 0,
    ensures
        kusy(s, n).flatten() == s,
        forall|i: int| 0 <= i < kusy(s, n).len() ==> 0 < #[trigger] kusy(s, n)[i].len() <= n,
        forall|i: int| 0 <= i < kusy(s, n).len() - 1 ==> #[trigger] kusy(s, n)[i].len() == n,
    decreases s.len(),
{
    let k = kusy(s, n);
    if s.len() == 0 {
        assert(k.flatten() =~= s);
    } else if s.len() <= n {
        assert(k.drop_first() =~= Seq::<Seq<A>>::empty());
        assert(Seq::<Seq<A>>::empty().flatten() == Seq::<A>::empty());
        assert(k.first() == s);
        assert(k.flatten() == k.first() + k.drop_first().flatten());
        assert(k.flatten() =~= s + Seq::<A>::empty());
        assert(k.flatten() =~= s);
    } else {
        let t = s.skip(n as int);
        zakon_kusy(t, n);
        assert(k.drop_first() =~= kusy(t, n));
        assert(k.first() == s.take(n as int));
        assert(s.take(n as int) + t =~= s);
        assert forall|i: int| 1 <= i < k.len() implies #[trigger] k[i] == kusy(t, n)[i - 1] by {}
    }
}

/// Riadok, ktorý sa zapíše na port pre jeden kus bajtov správy:
/// kus ako text a znak nového riadku; kus, ktorý nie je platné UTF-8, sa zapíše ako prázdny text.
pub open spec fn riadok_kusu(kus: Seq<u8>) -> Seq<u8> {
    if valid_utf8(kus) {
        kus.push(10u8)
    } else {
        seq![10u8]
    }
}

/// Platnosť UTF-8 (`std::str::from_utf8` uspeje práve na platnom UTF-8).
#[verifier::external_body]
fn je_platne_utf8(b: &[u8]) -> (r: bool)
    ensures
        r == valid_utf8(b@),
{
    std::str::from_utf8(b).is_ok()
}

fn vyrez(b: &[u8], od: usize, po: usize) -> (r: Vec<u8>)
    requires
        od <= po <= b@.len(),
    ensures
        r@ == b@.subrange(od as int, po as int),
{
    let mut r: Vec<u8> = Vec::new();
    let mut i: usize = od;
    while i < po
        invariant
            od <= i <= po,
            po <= b@.len(),
            r@ == b@.subrange(od as int, i as int),
        decreases po - i,
    {
        proof {
            assert(b@.subrange(od as int, i + 1) =~= b@.subrange(od as int, i as int).push(
                b@[i as int],
            ));
        }
        r.push(b[i]);
        i = i + 1;
    }
    r
}

/// Riadky, ktoré odoslanie textovej správy zapíše na port: bajty správy po kusoch
/// `MAX_CHUNK`, každý ako text a znak nového riadku.
pub fn kusy_spravy(msg: &str) -> (r: Vec<Vec<u8>>)
    ensures
        r@.len() == kusy(msg.spec_bytes(), MAX_CHUNK as nat).len(),
        forall|i: int|
            0 <= i < r@.len() ==> (#[trigger] r@[i])@ == riadok_kusu(
                kusy(msg.spec_bytes(), MAX_CHUNK as nat)[i],
            ),
{
    let b = msg.as_bytes();
    let ghost vsetko = b@;
    let mut r: Vec<Vec<u8>> = Vec::new();
    let mut i: usize = 0;
    assert(vsetko.skip(0) =~= vsetko);
    while i < b.len()
        invariant
            b@ == vsetko,
            i <= b@.len(),
            r@.len() + kusy(vsetko.skip(i as int), MAX_CHUNK as nat).len() == kusy(
                vsetko,
                MAX_CHUNK as nat,
            ).len(),
            forall|j: int|
                0 <= j < r@.len() ==> (#[trigger] r@[j])@ == riadok_kusu(
                    kusy(vsetko, MAX_CHUNK as nat)[j],
                ),
            forall|j: int|
                0 <= j < kusy(vsetko.skip(i as int), MAX_CHUNK as nat).len() ==> kusy(
                    vsetko,
                    MAX_CHUNK as nat,
                )[r@.len() + j] == #[trigger] kusy(vsetko.skip(i as int), MAX_CHUNK as nat)[j],
        decreases b@.len() - i,
    {
        let koniec = if b.len() - i < MAX_CHUNK {
            b.len()
        } else {
            i + MAX_CHUNK
        };
        let kus = vyrez(b, i, koniec);
        let ghost zvysok = vsetko.skip(i as int);
        proof {
            assert(kus@ =~= zvysok.take((koniec - i) as int));
            if zvysok.len() <= MAX_CHUNK {
                assert(kusy(zvysok, MAX_CHUNK as nat) == seq![zvysok]);
                assert(zvysok.take((koniec - i) as int) =~= zvysok);
                assert(vsetko.skip(koniec as int) =~= Seq::<u8>::empty());
            } else {
                assert(kusy(zvysok, MAX_CHUNK as nat) == seq![zvysok.take(MAX_CHUNK as int)]
                    + kusy(zvysok.skip(MAX_CHUNK as int), MAX_CHUNK as nat));
                assert(zvysok.skip(MAX_CHUNK as int) =~= vsetko.skip(koniec as int));
            }
        }
        let platne = je_platne_utf8(kus.as_slice());
        let mut riadok = kus;
        if platne {
            riadok.push(10u8);
        } else {
            riadok = vec![10u8];
        }
        proof {
            let nasl = kusy(vsetko.skip(koniec as int), MAX_CHUNK as nat);
            let tu = kusy(zvysok, MAX_CHUNK as nat);
            assert(tu[0] == zvysok.take((koniec - i) as int));
            assert(riadok@ == riadok_kusu(tu[0]));
            assert forall|j: int| 0 <= j < nasl.len() implies kusy(vsetko, MAX_CHUNK as nat)[r@.len()
                + 1 + j] == #[trigger] nasl[j] by {
                assert(tu[1 + j] == nasl[j]);
            }
        }
        r.push(riadok);
        i = koniec;
    }
    proof {
        assert(vsetko.skip(i as int) =~= Seq::<u8>::empty());
    }
    r
}


/// Sériový port, ako ho hlási systém: názov a pri USB porte výrobca (VID).
pub struct InfoPortu {
    pub port_name: String,
    pub usb_vid: Option<u16>,
}

/// Výrobcovia prevodníkov, za ktorými býva ESP32: CP2102, CH340/CH9102 a natívne USB Espressif.
pub open spec fn je_esp32(vid: u16) -> bool {
    vid == 0x10C4 || vid == 0x1A86 || vid == 0x303A
}

/// Názov prvého USB portu s výrobcom ESP32.
pub open spec fn prvy_esp32(p: Seq<InfoPortu>) -> Option<Seq<char>>
    decreases p.len(),
{
    if p.len() == 0 {
        None
    } else if p[0].usb_vid matches Some(v) && je_esp32(v) {
        Some(p[0].port_name@)
    } else {
        prvy_esp32(p.drop_first())
    }
}

/// Nájde prvý port, za ktorým je ESP32 (podľa výrobcu USB čipu).
pub fn najdi_esp32(porty: &Vec<InfoPortu>) -> (r: Option<String>)
    ensures
        match r {
            Some(n) => prvy_esp32(porty@) == Some(n@),
            None => prvy_esp32(porty@) is None,
        },
{
    let mut i: usize = 0;
    assert(porty@.skip(0) =~= porty@);
    while i < porty.len()
        invariant
            i <= porty.len(),
            prvy_esp32(porty@) == prvy_esp32(porty@.skip(i as int)),
        decreases porty.len() - i,
    {
        proof {
            assert(porty@.skip(i as int)[0] == porty@[i as int]);
            assert(porty@.skip(i as int).drop_first() =~= porty@.skip(i + 1));
        }
        match porty[i].usb_vid {
            Some(v) => {
                if v == 0x10C4 || v == 0x1A86 || v == 0x303A {
                    return Some(porty[i].port_name.clone());
                }
            },
            None => {},
        }
        i = i + 1;
    }
    assert(porty@.skip(i as int) =~= Seq::<InfoPortu>::empty());
    None
}

} // verus!
