//! Úprava piesní v textovom editore: obsah dočasného súboru, jeho čítanie
//! po strofách a zmeny v zozname piesní. Súbor, editor, dialógy a databázu
//! obsluhuje aplikácia.
use vstd::prelude::*;
use crate::library_jks::{
    obsah_strof, prva_zhoda, s_cislom, stabilne_zoradene, zakon_pridaj_a_odober,
    zakon_pridana_sa_najde, ziadna_zhoda, zhoda, PiesenV, SongJks, SongManager, StrofaJKS, StrofaV,
};
use crate::zoradenie::{self, s_klucom, usporiadane};
use crate::text::{
    bez_cr, je_prazdny_riadok, koniec_riadku, lemma_koniec_riadku, lemma_koniec_riadku_presne,
    prazdny_riadok, retazec,
    riadky, rozdel_riadky, spoj_riadky, znaky,
};
use crate::typ::TypPiesne;

verus! {

/// Pesnička s týmto číslom už existuje: pri JKS type medzi všetkými JKS pesničkami,
/// inak medzi pesničkami toho istého typu.
pub open spec fn cislo_existuje(typ_piesne: TypPiesne, s: Seq<PiesenV>, song_id: i32) -> bool {
    exists|i: int|
        0 <= i < s.len() && (#[trigger] s[i]).id == song_id && if typ_piesne is JKS {
            s[i].typ_pesnicky is JKS
        } else {
            s[i].typ_pesnicky == typ_piesne
        }
}

/// Či pesnička s týmto číslom už existuje (pre nový typ `typ_piesne`).
pub fn song_id_existing(typ_piesne: TypPiesne, song_manager: &SongManager, song_id: i32) -> (r:
    bool)
    ensures
        r == cislo_existuje(typ_piesne, song_manager@, song_id),
{
    let mut i: usize = 0;
    while i < song_manager.piesne.len()
        invariant
            i <= song_manager.piesne.len(),
            forall|j: int|
                0 <= j < i ==> !((#[trigger] song_manager@[j]).id == song_id && if typ_piesne is JKS {
                    song_manager@[j].typ_pesnicky is JKS
                } else {
                    song_manager@[j].typ_pesnicky == typ_piesne
                }),
        decreases song_manager.piesne.len() - i,
    {
        let p = &song_manager.piesne[i];
        let rovnaky_typ = match typ_piesne {
            TypPiesne::JKS(_) => match p.typ_pesnicky {
                TypPiesne::JKS(_) => true,
                _ => false,
            },
            _ => p.typ_pesnicky == typ_piesne,
        };
        if p.id == song_id && rovnaky_typ {
            assert(song_manager@[i as int] == p@);
            return true;
        }
        i = i + 1;
    }
    false
}

/// Po potvrdení zmazania odstráni pesničku zo zoznamu; vráti, či sa má zmazať aj z databázy.
pub fn fo_delete_song(song_manager: &mut SongManager, song_for_delete: &SongJks, potvrdene: bool) -> (r:
    bool)
    ensures
        r == potvrdene,
        !potvrdene ==> final(song_manager)@ == old(song_manager)@,
        potvrdene ==> forall|i: int|
            prva_zhoda(old(song_manager)@, song_for_delete.id, song_for_delete.typ_pesnicky, i)
                ==> final(song_manager)@ == old(song_manager)@.remove(i),
        potvrdene && ziadna_zhoda(
            old(song_manager)@,
            song_for_delete.id,
            song_for_delete.typ_pesnicky,
        ) ==> final(song_manager)@ == old(song_manager)@,
{
    if !potvrdene {
        return false;
    }
    song_manager.remove_song_by_id(song_for_delete.id, song_for_delete.typ_pesnicky);
    true
}

/// Obsah súboru na úpravu: text každej strofy a za ním prázdny riadok.
pub open spec fn text_na_upravu_spec(s: Seq<crate::library_jks::StrofaV>) -> Seq<char>
    decreases s.len(),
{
    if s.len() == 0 {
        Seq::empty()
    } else {
        text_na_upravu_spec(s.drop_last()) + s.last().text + seq!['\n', '\n']
    }
}

/// Obsah dočasného súboru, v ktorom používateľ upravuje pesničku.
pub fn text_na_upravu(songa: &SongJks) -> (r: String)
    ensures
        r@ == text_na_upravu_spec(songa@.strofy),
{
    let mut z: Vec<char> = Vec::new();
    let mut i: usize = 0;
    let ghost s = songa@.strofy;
    while i < songa.strofy.len()
        invariant
            s == songa@.strofy,
            i <= songa.strofy.len(),
            z@ == text_na_upravu_spec(s.take(i as int)),
        decreases songa.strofy.len() - i,
    {
        let t = znaky(songa.strofy[i].text.as_str());
        let ghost zac = z@;
        let mut j: usize = 0;
        while j < t.len()
            invariant
                j <= t.len(),
                z@ == zac + t@.subrange(0, j as int),
            decreases t.len() - j,
        {
            proof {
                assert(t@.subrange(0, j + 1) =~= t@.subrange(0, j as int).push(t@[j as int]));
            }
            z.push(t[j]);
            j = j + 1;
        }
        z.push('\n');
        z.push('\n');
        proof {
            assert(s.take(i + 1).drop_last() =~= s.take(i as int));
            assert(t@.subrange(0, t@.len() as int) =~= t@);
            assert(z@ =~= text_na_upravu_spec(s.take(i + 1)));
        }
        i = i + 1;
    }
    assert(s.take(s.len() as int) =~= s);
    retazec(&z)
}

/// Stav čítania strof: hotové strofy a riadky rozpísanej strofy.
pub ghost struct StavBlokov {
    pub hotove: Seq<Seq<char>>,
    pub aktualne: Seq<Seq<char>>,
}

/// Jeden riadok: prázdny riadok ukončí rozpísanú strofu, iný ju predĺži.
pub open spec fn krok_blokov(st: StavBlokov, riadok: Seq<char>) -> StavBlokov {
    if je_prazdny_riadok(riadok) {
        if st.aktualne.len() > 0 {
            StavBlokov { hotove: st.hotove.push(spoj_riadky(st.aktualne)), aktualne: Seq::empty() }
        } else {
            st
        }
    } else {
        StavBlokov { hotove: st.hotove, aktualne: st.aktualne.push(riadok) }
    }
}

/// Stav po prečítaní riadkov.
pub open spec fn stav_blokov(l: Seq<Seq<char>>) -> StavBlokov
    decreases l.len(),
{
    if l.len() == 0 {
        StavBlokov { hotove: Seq::empty(), aktualne: Seq::empty() }
    } else {
        krok_blokov(stav_blokov(l.drop_last()), l.last())
    }
}

/// Texty strof v súbore: skupiny neprázdnych riadkov oddelené prázdnymi riadkami,
/// riadky skupiny spojené znakom nového riadku.
pub open spec fn texty_strof(obsah: Seq<char>) -> Seq<Seq<char>> {
    let st = stav_blokov(riadky(obsah));
    if st.aktualne.len() > 0 {
        st.hotove.push(spoj_riadky(st.aktualne))
    } else {
        st.hotove
    }
}

/// Pohľad na riadky.
pub open spec fn pohlad(v: Seq<Vec<char>>) -> Seq<Seq<char>> {
    v.map_values(|x: Vec<char>| x@)
}

fn spoj(l: &Vec<Vec<char>>) -> (r: Vec<char>)
    ensures
        r@ == spoj_riadky(pohlad(l@)),
{
    let mut r: Vec<char> = Vec::new();
    let mut i: usize = 0;
    assert(pohlad(l@).take(0) =~= Seq::<Seq<char>>::empty());
    while i < l.len()
        invariant
            i <= l.len(),
            r@ == spoj_riadky(pohlad(l@).take(i as int)),
        decreases l.len() - i,
    {
        let ghost p = pohlad(l@);
        proof {
            assert(p.take(i + 1).drop_last() =~= p.take(i as int));
            assert(p.take(i + 1).last() == l@[i as int]@);
        }
        if i > 0 {
            r.push('\n');
        }
        let t = &l[i];
        let ghost zac = r@;
        let mut j: usize = 0;
        while j < t.len()
            invariant
                j <= t.len(),
                r@ == zac + t@.subrange(0, j as int),
            decreases t.len() - j,
        {
            proof {
                assert(t@.subrange(0, j + 1) =~= t@.subrange(0, j as int).push(t@[j as int]));
            }
            r.push(t[j]);
            j = j + 1;
        }
        proof {
            assert(t@.subrange(0, t@.len() as int) =~= t@);
            if i == 0 {
                assert(p.take(1) =~= seq![t@]);
                assert(r@ =~= t@);
            } else {
                assert(r@ =~= spoj_riadky(p.take(i as int)) + seq!['\n'] + t@);
            }
        }
        i = i + 1;
    }
    assert(pohlad(l@).take(l.len() as int) =~= pohlad(l@));
    r
}

/// Texty strof v obsahu súboru.
pub fn nacitaj_texty_strof(obsah: &str) -> (r: Vec<Vec<char>>)
    ensures
        pohlad(r@) == texty_strof(obsah@),
{
    let l = rozdel_riadky(obsah);
    let ghost rl = riadky(obsah@);
    assert(pohlad(l@) =~= rl);
    let mut hotove: Vec<Vec<char>> = Vec::new();
    let mut aktualne: Vec<Vec<char>> = Vec::new();
    let mut i: usize = 0;
    assert(rl.take(0) =~= Seq::<Seq<char>>::empty());
    while i < l.len()
        invariant
            rl == riadky(obsah@),
            pohlad(l@) == rl,
            i <= l.len(),
            pohlad(hotove@) == stav_blokov(rl.take(i as int)).hotove,
            pohlad(aktualne@) == stav_blokov(rl.take(i as int)).aktualne,
        decreases l.len() - i,
    {
        proof {
            assert(rl.take(i + 1).drop_last() =~= rl.take(i as int));
            assert(rl.take(i + 1).last() == l@[i as int]@);
        }
        let riadok = &l[i];
        if prazdny_riadok(riadok) {
            if aktualne.len() > 0 {
                let text = spoj(&aktualne);
                hotove.push(text);
                aktualne = Vec::new();
                proof {
                    assert(pohlad(aktualne@) =~= Seq::<Seq<char>>::empty());
                    assert(pohlad(hotove@) =~= stav_blokov(rl.take(i as int)).hotove.push(
                        spoj_riadky(stav_blokov(rl.take(i as int)).aktualne),
                    ));
                }
            }
        } else {
            let kopia = riadok.clone();
            assert(kopia@ == riadok@);
            aktualne.push(kopia);
            proof {
                assert(pohlad(aktualne@) =~= stav_blokov(rl.take(i as int)).aktualne.push(
                    riadok@,
                ));
            }
        }
        i = i + 1;
    }
    assert(rl.take(l.len() as int) =~= rl);
    if aktualne.len() > 0 {
        let text = spoj(&aktualne);
        hotove.push(text);
        assert(pohlad(hotove@) =~= texty_strof(obsah@));
    }
    hotove
}

/// Strofy upravenej pesničky: `i`-ta strofa má číslo `i`, číslo a typ pesničky.
pub open spec fn strofy_z_textov(r: Seq<crate::library_jks::StrofaV>, texty: Seq<Seq<char>>, id: i32, typ_piesne: TypPiesne) -> bool {
    &&& r.len() == texty.len()
    &&& forall|i: int|
        0 <= i < r.len() ==> {
            &&& (#[trigger] r[i]).id == id
            &&& r[i].cislo_strofy == i as i32
            &&& r[i].typ_piesne == Some(typ_piesne)
            &&& r[i].text == texty[i]
        }
}

proof fn lemma_bloky_dlzka(l: Seq<Seq<char>>)
    ensures
        stav_blokov(l).hotove.len() + (if stav_blokov(l).aktualne.len() > 0 {
            1int
        } else {
            0
        }) <= l.len(),
        stav_blokov(l).aktualne.len() <= l.len(),
    decreases l.len(),
{
    if l.len() > 0 {
        lemma_bloky_dlzka(l.drop_last());
    }
}

proof fn lemma_riadky_dlzka(s: Seq<char>)
    ensures
        riadky(s).len() <= s.len(),
    decreases s.len(),
{
    if s.len() > 0 {
        crate::text::lemma_koniec_riadku(s);
        let k = crate::text::koniec_riadku(s) as int;
        if k < s.len() {
            lemma_riadky_dlzka(s.skip(k + 1));
        }
    }
}

/// Prečíta upravený súbor ako novú verziu pesničky `songa_edit` (rovnaké číslo a typ):
/// v zozname nahradí prvú pesničku s týmto číslom a typom novou a novú vráti
/// na zápis do databázy.
pub fn nacitaj_zo_suboru(song_manager: &mut SongManager, songa_edit: &SongJks, obsah_suboru: &str) -> (r:
    SongJks)
    requires
        obsah_suboru@.len() < 0x7fff_ffff,
    ensures
        r.id == songa_edit.id,
        r.typ_pesnicky == songa_edit.typ_pesnicky,
        strofy_z_textov(r@.strofy, texty_strof(obsah_suboru@), songa_edit.id, songa_edit.typ_pesnicky),
        r.pocet_strof == r@.strofy.len() - 1,
        exists|m: Seq<PiesenV>|
            (forall|i: int|
                prva_zhoda(old(song_manager)@, songa_edit.id, songa_edit.typ_pesnicky, i) ==> m
                    == old(song_manager)@.remove(i)) && (ziadna_zhoda(
                old(song_manager)@,
                songa_edit.id,
                songa_edit.typ_pesnicky,
            ) ==> m == old(song_manager)@) && stabilne_zoradene(final(song_manager)@, m.push(r@)),
{
    let texty = nacitaj_texty_strof(obsah_suboru);
    proof {
        lemma_riadky_dlzka(obsah_suboru@);
        lemma_bloky_dlzka(riadky(obsah_suboru@));
        assert(texty@.len() == texty_strof(obsah_suboru@).len());
    }
    let mut nove_strofy: Vec<StrofaJKS> = Vec::new();
    let mut i: usize = 0;
    while i < texty.len()
        invariant
            i <= texty.len(),
            texty.len() < 0x7fff_ffff,
            pohlad(texty@) == texty_strof(obsah_suboru@),
            strofy_z_textov(obsah_strof(nove_strofy@), pohlad(texty@).take(i as int), songa_edit.id, songa_edit.typ_pesnicky),
        decreases texty.len() - i,
    {
        let text = retazec(&texty[i]);
        let strofa = StrofaJKS {
            id: songa_edit.id,
            cislo_strofy: i as i32,
            typ_piesne: Some(songa_edit.typ_pesnicky),
            text,
        };
        let ghost pred = nove_strofy@;
        nove_strofy.push(strofa);
        proof {
            assert(obsah_strof(nove_strofy@) =~= obsah_strof(pred).push(strofa@));
            assert(pohlad(texty@).take(i + 1) =~= pohlad(texty@).take(i as int).push(texty@[i as int]@));
        }
        i = i + 1;
    }
    assert(pohlad(texty@).take(texty.len() as int) =~= pohlad(texty@));
    let pocet_strof = (nove_strofy.len() as i32) - 1;
    let nova_songa = SongJks::new(songa_edit.id, pocet_strof, nove_strofy, songa_edit.typ_pesnicky);
    let kopia = nova_songa.clone();
    let ghost stare = song_manager@;
    song_manager.remove_song_by_id(songa_edit.id, songa_edit.typ_pesnicky);
    let ghost m = song_manager@;
    song_manager.add_song(nova_songa);
    proof {
        assert(kopia@ == nova_songa@);
    }
    kopia
}


/// Riadok strofy, ktorý úprava v súbore zachová: nie je prázdny ani z bielych znakov,
/// neobsahuje nový riadok a nekončí znakom `\r`.
pub open spec fn riadny_riadok(r: Seq<char>) -> bool {
    &&& !je_prazdny_riadok(r)
    &&& forall|j: int| 0 <= j < r.len() ==> r[j] != '\n'
    &&& !(r.len() > 0 && r.last() == '\r')
}

/// Aspoň jeden riadok a všetky riadne.
pub open spec fn riadne_riadky(l: Seq<Seq<char>>) -> bool {
    &&& l.len() > 0
    &&& forall|i: int| 0 <= i < l.len() ==> riadny_riadok(#[trigger] l[i])
}

proof fn lemma_riadok_a_zvysok(a: Seq<char>, zvysok: Seq<char>)
    requires
        forall|j: int| 0 <= j < a.len() ==> a[j] != '\n',
    ensures
        riadky(a + seq!['\n'] + zvysok) == seq![bez_cr(a)] + riadky(zvysok),
{
    let x = a + seq!['\n'] + zvysok;
    lemma_koniec_riadku_presne(x, a.len() as int);
    assert(x.take(a.len() as int) =~= a);
    assert(x.skip(a.len() as int + 1) =~= zvysok);
}

/// Riadky textu, ktorý je prázdny alebo končí novým riadkom, a za ním ďalšieho textu.
proof fn lemma_riadky_spoj(a: Seq<char>, b: Seq<char>)
    requires
        a.len() == 0 || a.last() == '\n',
    ensures
        riadky(a + b) == riadky(a) + riadky(b),
    decreases a.len(),
{
    if a.len() == 0 {
        assert(a + b =~= b);
        assert(riadky(a) + riadky(b) =~= riadky(b));
    } else {
        lemma_koniec_riadku(a);
        let k = koniec_riadku(a) as int;
        if k == a.len() {
            assert(a[a.len() - 1] != '\n');
        }
        let c = a.take(k);
        let d = a.skip(k + 1);
        assert(a =~= c + seq!['\n'] + d);
        assert(a + b =~= c + seq!['\n'] + (d + b));
        lemma_riadok_a_zvysok(c, d + b);
        lemma_riadok_a_zvysok(c, d);
        if d.len() > 0 {
            assert(d.last() == a.last());
        }
        lemma_riadky_spoj(d, b);
        assert(seq![bez_cr(c)] + (riadky(d) + riadky(b)) =~= (seq![bez_cr(c)] + riadky(d))
            + riadky(b));
    }
}

/// Riadky strofy zapísanej do súboru sú jej riadky.
proof fn lemma_riadky_strofy(l: Seq<Seq<char>>, zvysok: Seq<char>)
    requires
        riadne_riadky(l),
    ensures
        riadky(spoj_riadky(l) + seq!['\n'] + zvysok) == l + riadky(zvysok),
    decreases l.len(),
{
    let posledny = l.last();
    assert(riadny_riadok(l[l.len() - 1]));
    if l.len() == 1 {
        lemma_riadok_a_zvysok(l[0], zvysok);
        assert(seq![l[0]] =~= l);
    } else {
        let p = l.drop_last();
        assert forall|i: int| 0 <= i < p.len() implies riadny_riadok(#[trigger] p[i]) by {
            assert(p[i] == l[i]);
        }
        let z2 = posledny + seq!['\n'] + zvysok;
        assert(spoj_riadky(l) + seq!['\n'] + zvysok =~= spoj_riadky(p) + seq!['\n'] + z2);
        lemma_riadky_strofy(p, z2);
        lemma_riadok_a_zvysok(posledny, zvysok);
        assert(p + (seq![posledny] + riadky(zvysok)) =~= l + riadky(zvysok));
    }
}

/// Neprázdne riadky predĺžia rozpísanú strofu.
proof fn lemma_bloky_pridaj(p: Seq<Seq<char>>, l: Seq<Seq<char>>)
    requires
        forall|i: int| 0 <= i < l.len() ==> !je_prazdny_riadok(#[trigger] l[i]),
    ensures
        stav_blokov(p + l) == (StavBlokov {
            hotove: stav_blokov(p).hotove,
            aktualne: stav_blokov(p).aktualne + l,
        }),
    decreases l.len(),
{
    if l.len() == 0 {
        assert(p + l =~= p);
        assert(stav_blokov(p).aktualne + l =~= stav_blokov(p).aktualne);
    } else {
        let k = l.drop_last();
        assert forall|i: int| 0 <= i < k.len() implies !je_prazdny_riadok(#[trigger] k[i]) by {
            assert(k[i] == l[i]);
        }
        lemma_bloky_pridaj(p, k);
        assert((p + l).drop_last() =~= p + k);
        assert((p + l).last() == l.last());
        assert(!je_prazdny_riadok(l[l.len() - 1]));
        assert((stav_blokov(p).aktualne + k).push(l.last()) =~= stav_blokov(p).aktualne + l);
    }
}

/// Súbor na úpravu končí novým riadkom (alebo je prázdny).
proof fn lemma_koniec_suboru(s: Seq<crate::library_jks::StrofaV>)
    ensures
        text_na_upravu_spec(s).len() == 0 || text_na_upravu_spec(s).last() == '\n',
{
}

/// Texty strof.
pub open spec fn texty_strof_piesne(s: Seq<crate::library_jks::StrofaV>) -> Seq<Seq<char>> {
    s.map_values(|x: crate::library_jks::StrofaV| x.text)
}

proof fn lemma_bloky_suboru(s: Seq<crate::library_jks::StrofaV>, l: Seq<Seq<Seq<char>>>)
    requires
        l.len() == s.len(),
        forall|i: int|
            0 <= i < s.len() ==> riadne_riadky(#[trigger] l[i]) && s[i].text == spoj_riadky(l[i]),
    ensures
        stav_blokov(riadky(text_na_upravu_spec(s))) == (StavBlokov {
            hotove: texty_strof_piesne(s),
            aktualne: Seq::empty(),
        }),
    decreases s.len(),
{
    if s.len() == 0 {
        assert(texty_strof_piesne(s) =~= Seq::<Seq<char>>::empty());
    } else {
        let p = s.drop_last();
        let lp = l.drop_last();
        assert forall|i: int| 0 <= i < p.len() implies riadne_riadky(#[trigger] lp[i])
            && p[i].text == spoj_riadky(lp[i]) by {
            assert(lp[i] == l[i] && p[i] == s[i]);
        }
        lemma_bloky_suboru(p, lp);
        let posl = l[l.len() - 1];
        assert(riadne_riadky(posl) && s.last().text == spoj_riadky(posl));
        let t = s.last().text;
        let pred = text_na_upravu_spec(p);
        lemma_koniec_suboru(p);
        assert(text_na_upravu_spec(s) =~= pred + (t + seq!['\n', '\n']));
        lemma_riadky_spoj(pred, t + seq!['\n', '\n']);
        // riadky strofy a jeden prázdny riadok
        assert(t + seq!['\n', '\n'] =~= spoj_riadky(posl) + seq!['\n'] + seq!['\n']);
        lemma_riadky_strofy(posl, seq!['\n']);
        lemma_riadok_a_zvysok(Seq::<char>::empty(), Seq::<char>::empty());
        assert(Seq::<char>::empty() + seq!['\n'] + Seq::<char>::empty() =~= seq!['\n']);
        assert(riadky(Seq::<char>::empty()) =~= Seq::<Seq<char>>::empty());
        let prazdny: Seq<char> = Seq::empty();
        assert(bez_cr(prazdny) =~= prazdny);
        let r = riadky(pred);
        assert(riadky(t + seq!['\n', '\n']) =~= posl + seq![prazdny]);
        assert(riadky(text_na_upravu_spec(s)) =~= (r + posl).push(prazdny));
        assert forall|i: int| 0 <= i < posl.len() implies !je_prazdny_riadok(#[trigger] posl[i]) by {
            assert(riadny_riadok(posl[i]));
        }
        lemma_bloky_pridaj(r, posl);
        assert(((r + posl).push(prazdny)).drop_last() =~= r + posl);
        assert(Seq::<Seq<char>>::empty() + posl =~= posl);
        assert(je_prazdny_riadok(prazdny));
        assert(texty_strof_piesne(s) =~= texty_strof_piesne(p).push(t));
    }
}

/// Pesnička otvorená na úpravu a uložená bez zmeny sa načíta s tými istými textami strof,
/// ak má každá strofa aspoň jeden riadok a jej riadky nie sú prázdne ani z bielych znakov,
/// neobsahujú nový riadok a nekončia znakom `\r` (`l[i]` sú riadky `i`-tej strofy).
pub proof fn zakon_uprava_bez_zmeny(
    s: Seq<crate::library_jks::StrofaV>,
    l: Seq<Seq<Seq<char>>>,
)
    requires
        l.len() == s.len(),
        forall|i: int|
            0 <= i < s.len() ==> riadne_riadky(#[trigger] l[i]) && s[i].text == spoj_riadky(l[i]),
    ensures
        texty_strof(text_na_upravu_spec(s)) == texty_strof_piesne(s),
{
    lemma_bloky_suboru(s, l);
}


/// Úprava pesničky bez zmeny textu: ak je pesnička `m[i]` jediná so svojím číslom a typom
/// a jej strofy majú riadne riadky (`l[k]` sú riadky `k`-tej strofy), tak súbor
/// z `text_na_upravu` prečítaný cez `nacitaj_zo_suboru` (jeho výsledok `r` a nový zoznam
/// `m2` sú v predpokladoch) dá pesničku s tými istými textami strof, očíslovanými od 0,
/// s typom pesničky a počtom strof o jednu menším; v novom zozname je jediná s týmto
/// číslom a typom a ostatné pesničky sú pôvodné, stabilne zoradené podľa čísla
/// (v zozname zoradenom podľa čísla v nezmenenom poradí).
pub proof fn zakon_uprava_piesne_bez_zmeny(
    m: Seq<PiesenV>,
    i: int,
    l: Seq<Seq<Seq<char>>>,
    r: PiesenV,
    m2: Seq<PiesenV>,
)
    requires
        0 <= i < m.len(),
        forall|j: int|
            0 <= j < m.len() && j != i ==> !zhoda(#[trigger] m[j], m[i].id, m[i].typ_pesnicky),
        l.len() == m[i].strofy.len(),
        forall|k: int|
            0 <= k < l.len() ==> riadne_riadky(#[trigger] l[k]) && m[i].strofy[k].text
                == spoj_riadky(l[k]),
        r.id == m[i].id,
        r.typ_pesnicky == m[i].typ_pesnicky,
        strofy_z_textov(
            r.strofy,
            texty_strof(text_na_upravu_spec(m[i].strofy)),
            m[i].id,
            m[i].typ_pesnicky,
        ),
        r.pocet_strof == r.strofy.len() - 1,
        exists|mm: Seq<PiesenV>|
            (forall|j: int|
                prva_zhoda(m, m[i].id, m[i].typ_pesnicky, j) ==> mm == m.remove(j)) && (
            ziadna_zhoda(m, m[i].id, m[i].typ_pesnicky) ==> mm == m) && stabilne_zoradene(
                m2,
                mm.push(r),
            ),
    ensures
        r.strofy.len() == m[i].strofy.len(),
        forall|k: int|
            0 <= k < r.strofy.len() ==> #[trigger] r.strofy[k] == (StrofaV {
                id: m[i].id,
                cislo_strofy: k as i32,
                typ_piesne: Some(m[i].typ_pesnicky),
                text: m[i].strofy[k].text,
            }),
        r.pocet_strof == m[i].strofy.len() - 1,
        exists|j: int|
            {
                &&& prva_zhoda(m2, m[i].id, m[i].typ_pesnicky, j)
                &&& m2[j] == r
                &&& ziadna_zhoda(m2.remove(j), m[i].id, m[i].typ_pesnicky)
                &&& stabilne_zoradene(m2.remove(j), m.remove(i))
                &&& (usporiadane::<SongJks>(m) ==> m2.remove(j) == m.remove(i))
            },
{
    let p = m[i];
    let id = p.id;
    let typ = p.typ_pesnicky;
    // texty strof
    zakon_uprava_bez_zmeny(p.strofy, l);
    assert(texty_strof(text_na_upravu_spec(p.strofy)) == texty_strof_piesne(p.strofy));
    assert forall|k: int| 0 <= k < r.strofy.len() implies #[trigger] r.strofy[k] == (StrofaV {
        id,
        cislo_strofy: k as i32,
        typ_piesne: Some(typ),
        text: p.strofy[k].text,
    }) by {
        assert(texty_strof_piesne(p.strofy)[k] == p.strofy[k].text);
    }
    // pôvodný zoznam bez upravovanej pesničky
    assert(prva_zhoda(m, id, typ, i));
    let mm = choose|mm: Seq<PiesenV>|
        (forall|j: int| prva_zhoda(m, id, typ, j) ==> mm == m.remove(j)) && (ziadna_zhoda(
            m,
            id,
            typ,
        ) ==> mm == m) && stabilne_zoradene(m2, mm.push(r));
    assert(mm == m.remove(i));
    assert forall|q: int| 0 <= q < mm.len() implies !zhoda(#[trigger] mm[q], id, typ) by {
        if q < i {
            assert(mm[q] == m[q]);
        } else {
            assert(mm[q] == m[q + 1]);
        }
    }
    assert(ziadna_zhoda(mm, id, typ));
    // upravená pesnička sa nájde a po jej odobratí ostane pôvodný zoznam
    zakon_pridana_sa_najde(mm, r, m2);
    let j = choose|j: int| prva_zhoda(m2, id, typ, j);
    assert forall|j2: int| prva_zhoda(m2, r.id, r.typ_pesnicky, j2) implies m2.remove(j)
        == m2.remove(j2) by {
        if j2 < j {
            assert(zhoda(m2[j2], id, typ));
        } else if j < j2 {
            assert(zhoda(m2[j], id, typ));
        }
    }
    zakon_pridaj_a_odober(mm, r, m2, m2.remove(j));
    // nájdená pesnička je `r`
    let x = m2[j];
    zoradenie::lemma_vo_vybere::<SongJks>(m2, j);
    assert(s_cislom(m2, id) == s_cislom(mm.push(r), id));
    zoradenie::lemma_push::<SongJks>(mm, r, id);
    if x != r {
        let f = s_cislom(mm, id);
        assert(s_cislom(m2, id).contains(x));
        let t = choose|t: int| 0 <= t < f.push(r).len() && f.push(r)[t] == x;
        assert(t < f.len());
        assert(f.contains(x));
        zoradenie::lemma_obsahuje::<SongJks>(mm, id, x);
        let q = choose|q: int| 0 <= q < mm.len() && mm[q] == x;
        assert(zhoda(mm[q], id, typ));
        assert(false);
    }
    // v novom zozname je jediná s týmto číslom a typom
    let zv = m2.remove(j);
    assert forall|q: int| 0 <= q < zv.len() implies !zhoda(#[trigger] zv[q], id, typ) by {
        if zhoda(zv[q], id, typ) {
            zoradenie::lemma_vo_vybere::<SongJks>(zv, q);
            assert(s_cislom(zv, id) == s_cislom(mm, id));
            zoradenie::lemma_obsahuje::<SongJks>(mm, id, zv[q]);
            let q2 = choose|q2: int| 0 <= q2 < mm.len() && mm[q2] == zv[q];
            assert(zhoda(mm[q2], id, typ));
        }
    }
    // v zoradenom zozname sa poradie ostatných nemení
    if usporiadane::<SongJks>(m) {
        zoradenie::lemma_odobratie_zoradene::<SongJks>(m, i);
        assert forall|k: i32| #[trigger] s_klucom::<SongJks>(zv, k) == s_klucom::<SongJks>(mm, k) by {
            assert(s_cislom(zv, k) == s_cislom(mm, k));
        }
        zoradenie::lemma_zoradene_rovnake::<SongJks>(zv, mm);
    }
    assert(prva_zhoda(m2, id, typ, j) && m2[j] == r && ziadna_zhoda(zv, id, typ)
        && stabilne_zoradene(zv, m.remove(i)));
}

} // verus!
