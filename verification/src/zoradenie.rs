//! Stabilné zoradenie podľa celočíselného kľúča (ako `sort_by_key`).
use vstd::prelude::*;

verus! {

/// Hodnota s celočíselným kľúčom zoradenia, určeným jej abstraktným obsahom.
pub trait Kluc: View + Sized {
    /// Kľúč podľa obsahu.
    spec fn kluc(v: Self::V) -> i32;

    /// Kľúč hodnoty.
    fn daj_kluc(&self) -> (r: i32)
        ensures
            r == Self::kluc(self@),
    ;
}

/// Obsah prvkov postupnosti.
pub open spec fn obsah<T: View>(s: Seq<T>) -> Seq<T::V> {
    s.map_values(|x: T| x@)
}

/// Prvky sú zoradené podľa kľúča (neklesajúco).
pub open spec fn usporiadane<T: Kluc>(s: Seq<T::V>) -> bool {
    forall|i: int, j: int|
        0 <= i <= j < s.len() ==> #[trigger] T::kluc(s[i]) <= #[trigger] T::kluc(s[j])
}

/// Prvky s daným kľúčom v pôvodnom poradí.
pub open spec fn s_klucom<T: Kluc>(s: Seq<T::V>, k: i32) -> Seq<T::V> {
    s.filter(ma_kluc::<T>(k))
}

/// Podmienka „prvok má kľúč `k`“.
pub open spec fn ma_kluc<T: Kluc>(k: i32) -> spec_fn(T::V) -> bool {
    |x: T::V| T::kluc(x) == k
}

/// `r` je stabilne zoradené `s`: zoradené, a prvky s rovnakým kľúčom idú
/// v rovnakom poradí ako v `s` (teda `r` je preusporiadanie `s`).
pub open spec fn stabilne_zoradene<T: Kluc>(r: Seq<T::V>, s: Seq<T::V>) -> bool {
    &&& usporiadane::<T>(r)
    &&& forall|k: i32| #[trigger] s_klucom::<T>(r, k) == s_klucom::<T>(s, k)
}

/// Výber prvkov s kľúčom zo spojenia je spojenie výberov.
pub proof fn lemma_spoj<T: Kluc>(a: Seq<T::V>, b: Seq<T::V>, k: i32)
    ensures
        s_klucom::<T>(a + b, k) == s_klucom::<T>(a, k) + s_klucom::<T>(b, k),
{
    Seq::filter_distributes_over_add(a, b, ma_kluc::<T>(k));
}

/// Výber z jedného prvku.
pub proof fn lemma_jeden<T: Kluc>(e: T::V, k: i32)
    ensures
        s_klucom::<T>(seq![e], k) == if T::kluc(e) == k {
            seq![e]
        } else {
            Seq::<T::V>::empty()
        },
{
    Seq::<T::V>::empty().lemma_filter_push(e, ma_kluc::<T>(k));
    assert(Seq::<T::V>::empty().push(e) =~= seq![e]);
    reveal_with_fuel(Seq::filter, 1);
}

/// Výber po pridaní prvku na koniec.
pub proof fn lemma_push<T: Kluc>(s: Seq<T::V>, e: T::V, k: i32)
    ensures
        s_klucom::<T>(s.push(e), k) == if T::kluc(e) == k {
            s_klucom::<T>(s, k).push(e)
        } else {
            s_klucom::<T>(s, k)
        },
{
    s.lemma_filter_push(e, ma_kluc::<T>(k));
}

/// Prvky filtra pochádzajú z pôvodnej postupnosti a majú daný kľúč.
pub proof fn lemma_prvok<T: Kluc>(s: Seq<T::V>, k: i32, t: int)
    requires
        0 <= t < s_klucom::<T>(s, k).len(),
    ensures
        s.contains(s_klucom::<T>(s, k)[t]),
        T::kluc(s_klucom::<T>(s, k)[t]) == k,
{
    let f = s_klucom::<T>(s, k);
    assert(f.contains(f[t]));
    s.lemma_filter_contains_rev(ma_kluc::<T>(k), f[t]);
    s.lemma_filter_pred(ma_kluc::<T>(k), t);
}

/// Prvok, ktorý je vo filtri, je aj v pôvodnej postupnosti.
pub proof fn lemma_obsahuje<T: Kluc>(s: Seq<T::V>, k: i32, e: T::V)
    requires
        s_klucom::<T>(s, k).contains(e),
    ensures
        s.contains(e),
{
    s.lemma_filter_contains_rev(ma_kluc::<T>(k), e);
}

/// Ak žiadny prvok nemá kľúč `k`, výber je prázdny.
pub proof fn lemma_ziadne<T: Kluc>(s: Seq<T::V>, k: i32)
    requires
        forall|i: int| 0 <= i < s.len() ==> T::kluc(#[trigger] s[i]) != k,
    ensures
        s_klucom::<T>(s, k) == Seq::<T::V>::empty(),
    decreases s.len(),
{
    reveal_with_fuel(Seq::filter, 1);
    if s.len() > 0 {
        lemma_ziadne::<T>(s.drop_last(), k);
        assert(T::kluc(s[s.len() - 1]) != k);
    }
}

/// Rozklad filtra pri vložení prvku na pozíciu `p`.
pub proof fn lemma_vlozenie<T: Kluc>(r: Seq<T::V>, p: int, e: T::V, k: i32)
    requires
        0 <= p <= r.len(),
    ensures
        s_klucom::<T>(r.insert(p, e), k) == s_klucom::<T>(r.subrange(0, p), k) + s_klucom::<T>(
            seq![e],
            k,
        ) + s_klucom::<T>(r.subrange(p, r.len() as int), k),
        s_klucom::<T>(r, k) == s_klucom::<T>(r.subrange(0, p), k) + s_klucom::<T>(
            r.subrange(p, r.len() as int),
            k,
        ),
{
    let a = r.subrange(0, p);
    let b = r.subrange(p, r.len() as int);
    assert(r.insert(p, e) =~= (a + seq![e]) + b);
    assert(r =~= a + b);
    lemma_spoj::<T>(a + seq![e], b, k);
    lemma_spoj::<T>(a, seq![e], k);
    lemma_spoj::<T>(a, b, k);
}

/// Prvý index, na ktorom má prvok kľúč väčší ako `k` (v zoradenom zozname).
fn horna_hranica<T: Kluc>(v: &Vec<T>, k: i32) -> (p: usize)
    requires
        usporiadane::<T>(obsah(v@)),
    ensures
        p <= v.len(),
        forall|i: int| 0 <= i < p ==> T::kluc(#[trigger] obsah(v@)[i]) <= k,
        forall|i: int| p <= i < v.len() ==> T::kluc(#[trigger] obsah(v@)[i]) > k,
{
    let mut p: usize = 0;
    while p < v.len() && v[p].daj_kluc() <= k
        invariant
            usporiadane::<T>(obsah(v@)),
            p <= v.len(),
            forall|i: int| 0 <= i < p ==> T::kluc(#[trigger] obsah(v@)[i]) <= k,
        decreases v.len() - p,
    {
        p = p + 1;
    }
    proof {
        assert forall|i: int| p <= i < v.len() implies T::kluc(#[trigger] obsah(v@)[i]) > k by {
            assert(T::kluc(obsah(v@)[p as int]) <= T::kluc(obsah(v@)[i]));
        }
    }
    p
}

/// Prvý index, na ktorom má prvok kľúč aspoň `k` (v zoradenom zozname).
fn dolna_hranica<T: Kluc>(v: &Vec<T>, k: i32) -> (p: usize)
    requires
        usporiadane::<T>(obsah(v@)),
    ensures
        p <= v.len(),
        forall|i: int| 0 <= i < p ==> T::kluc(#[trigger] obsah(v@)[i]) < k,
        forall|i: int| p <= i < v.len() ==> T::kluc(#[trigger] obsah(v@)[i]) >= k,
{
    let mut p: usize = 0;
    while p < v.len() && v[p].daj_kluc() < k
        invariant
            usporiadane::<T>(obsah(v@)),
            p <= v.len(),
            forall|i: int| 0 <= i < p ==> T::kluc(#[trigger] obsah(v@)[i]) < k,
        decreases v.len() - p,
    {
        p = p + 1;
    }
    proof {
        assert forall|i: int| p <= i < v.len() implies T::kluc(#[trigger] obsah(v@)[i]) >= k by {
            assert(T::kluc(obsah(v@)[p as int]) <= T::kluc(obsah(v@)[i]));
        }
    }
    p
}

/// Či je zoznam zoradený podľa kľúča.
pub fn je_zoradeny<T: Kluc>(v: &Vec<T>) -> (r: bool)
    ensures
        r == usporiadane::<T>(obsah(v@)),
{
    if v.len() == 0 {
        return true;
    }
    let mut i: usize = 1;
    while i < v.len()
        invariant
            1 <= i <= v.len(),
            usporiadane::<T>(obsah(v@.subrange(0, i as int))),
        decreases v.len() - i,
    {
        if v[i - 1].daj_kluc() > v[i].daj_kluc() {
            proof {
                let s = obsah(v@);
                assert(T::kluc(s[i - 1]) > T::kluc(s[i as int]));
            }
            return false;
        }
        proof {
            let s = obsah(v@.subrange(0, i + 1));
            let t = obsah(v@.subrange(0, i as int));
            assert forall|a: int, b: int| 0 <= a <= b < s.len() implies #[trigger] T::kluc(s[a])
                <= #[trigger] T::kluc(s[b]) by {
                if b < i {
                    assert(s[a] == t[a] && s[b] == t[b]);
                } else if a < i {
                    assert(s[a] == t[a]);
                    assert(T::kluc(t[a]) <= T::kluc(t[i - 1]));
                }
            }
        }
        i = i + 1;
    }
    assert(v@.subrange(0, v@.len() as int) =~= v@);
    true
}

/// Vloží prvok do zoradeného zoznamu tak, že ostane zoradený
/// a `e` príde za všetky prvky s rovnakým kľúčom.
pub fn vloz_za_rovnake<T: Kluc>(v: &mut Vec<T>, e: T)
    requires
        usporiadane::<T>(obsah(old(v)@)),
    ensures
        stabilne_zoradene::<T>(obsah(final(v)@), obsah(old(v)@).push(e@)),
        final(v)@.len() == old(v)@.len() + 1,
{
    let ghost r = obsah(v@);
    let ghost ev = e@;
    let p = horna_hranica(v, e.daj_kluc());
    v.insert(p, e);
    proof {
        let n = obsah(v@);
        assert(n =~= r.insert(p as int, ev));
        assert forall|a: int, b: int| 0 <= a <= b < n.len() implies #[trigger] T::kluc(n[a])
            <= #[trigger] T::kluc(n[b]) by {
            if a < p && b < p {
                assert(T::kluc(r[a]) <= T::kluc(r[b]));
            } else if a < p && b == p {
                assert(T::kluc(r[a]) <= T::kluc(ev));
            } else if a < p {
                assert(T::kluc(r[a]) <= T::kluc(r[b - 1]));
            } else if a == p && b > p {
                assert(T::kluc(r[b - 1]) > T::kluc(ev));
            } else if a > p {
                assert(T::kluc(r[a - 1]) <= T::kluc(r[b - 1]));
            }
        }
        assert forall|k: i32| #[trigger] s_klucom::<T>(n, k) == s_klucom::<T>(r.push(ev), k) by {
            lemma_vlozenie::<T>(r, p as int, ev, k);
            lemma_jeden::<T>(ev, k);
            lemma_push::<T>(r, ev, k);
            let b = r.subrange(p as int, r.len() as int);
            if k == T::kluc(ev) {
                assert forall|i: int| 0 <= i < b.len() implies T::kluc(#[trigger] b[i]) != k by {
                    assert(T::kluc(r[p + i]) > T::kluc(ev));
                }
                lemma_ziadne::<T>(b, k);
            }
            assert(s_klucom::<T>(r.subrange(0, p as int), k) + Seq::<T::V>::empty()
                =~= s_klucom::<T>(r.subrange(0, p as int), k));
        }
    }
}

/// Stabilne zoradí prvky podľa kľúča (ako `sort_by_key`).
pub fn zorad<T: Kluc>(v: &mut Vec<T>)
    ensures
        stabilne_zoradene::<T>(obsah(final(v)@), obsah(old(v)@)),
        final(v)@.len() == old(v)@.len(),
{
    let mut zvysok: Vec<T> = Vec::new();
    std::mem::swap(v, &mut zvysok);
    let ghost povodne = obsah(zvysok@);
    assert(povodne.subrange(povodne.len() as int, povodne.len() as int) =~= Seq::<
        T::V,
    >::empty());
    assert(obsah(zvysok@) =~= povodne.subrange(0, zvysok.len() as int));
    assert(obsah(v@) =~= Seq::<T::V>::empty());
    while zvysok.len() > 0
        invariant
            zvysok.len() <= povodne.len(),
            v.len() + zvysok.len() == povodne.len(),
            obsah(zvysok@) == povodne.subrange(0, zvysok.len() as int),
            usporiadane::<T>(obsah(v@)),
            forall|k: i32| #[trigger]
                s_klucom::<T>(obsah(v@), k) == s_klucom::<T>(
                    povodne.subrange(zvysok.len() as int, povodne.len() as int),
                    k,
                ),
        decreases zvysok.len(),
    {
        let ghost m = zvysok.len() as int;
        let ghost r = obsah(v@);
        let ghost z0 = zvysok@;
        let e = zvysok.pop().unwrap();
        let ghost ev = e@;
        proof {
            assert(e == z0[m - 1]);
            assert(obsah(z0)[m - 1] == ev);
            assert(obsah(zvysok@) =~= povodne.subrange(0, m - 1));
            assert(ev == povodne[m - 1]);
        }
        let p = dolna_hranica(v, e.daj_kluc());
        v.insert(p, e);
        proof {
            let n = obsah(v@);
            assert(n =~= r.insert(p as int, ev));
            assert forall|a: int, b: int| 0 <= a <= b < n.len() implies #[trigger] T::kluc(n[a])
                <= #[trigger] T::kluc(n[b]) by {
                if a < p && b < p {
                    assert(T::kluc(r[a]) <= T::kluc(r[b]));
                } else if a < p && b == p {
                    assert(T::kluc(r[a]) < T::kluc(ev));
                } else if a < p {
                    assert(T::kluc(r[a]) <= T::kluc(r[b - 1]));
                } else if a == p && b > p {
                    assert(T::kluc(r[b - 1]) >= T::kluc(ev));
                } else if a > p {
                    assert(T::kluc(r[a - 1]) <= T::kluc(r[b - 1]));
                }
            }
            let stare = povodne.subrange(m, povodne.len() as int);
            let nove = povodne.subrange(m - 1, povodne.len() as int);
            assert(nove =~= seq![ev] + stare);
            assert forall|k: i32| #[trigger] s_klucom::<T>(n, k) == s_klucom::<T>(nove, k) by {
                lemma_vlozenie::<T>(r, p as int, ev, k);
                lemma_jeden::<T>(ev, k);
                lemma_spoj::<T>(seq![ev], stare, k);
                let a = r.subrange(0, p as int);
                if k == T::kluc(ev) {
                    assert forall|i: int| 0 <= i < a.len() implies T::kluc(#[trigger] a[i]) != k by {
                        assert(T::kluc(r[i]) < T::kluc(ev));
                    }
                    lemma_ziadne::<T>(a, k);
                    assert(Seq::<T::V>::empty() + s_klucom::<T>(
                        r.subrange(p as int, r.len() as int),
                        k,
                    ) =~= s_klucom::<T>(r.subrange(p as int, r.len() as int), k));
                    assert(Seq::<T::V>::empty() + seq![ev] =~= seq![ev]);
                } else {
                    assert(s_klucom::<T>(a, k) + Seq::<T::V>::empty() =~= s_klucom::<T>(a, k));
                    assert(Seq::<T::V>::empty() + s_klucom::<T>(stare, k) =~= s_klucom::<T>(
                        stare,
                        k,
                    ));
                }
            }
        }
    }
    assert(povodne.subrange(0, povodne.len() as int) =~= povodne);
}


/// Prvok s daným kľúčom je vo výbere.
pub proof fn lemma_vo_vybere<T: Kluc>(s: Seq<T::V>, t: int)
    requires
        0 <= t < s.len(),
    ensures
        s_klucom::<T>(s, T::kluc(s[t])).contains(s[t]),
{
    s.lemma_filter_contains(ma_kluc::<T>(T::kluc(s[t])), t);
}

/// Odobratím prvku ostane postupnosť zoradená.
pub proof fn lemma_odobratie_zoradene<T: Kluc>(s: Seq<T::V>, i: int)
    requires
        usporiadane::<T>(s),
        0 <= i < s.len(),
    ensures
        usporiadane::<T>(s.remove(i)),
{
    let r = s.remove(i);
    assert forall|a: int, b: int| 0 <= a <= b < r.len() implies #[trigger] T::kluc(r[a])
        <= #[trigger] T::kluc(r[b]) by {
        let a2 = if a < i { a } else { a + 1 };
        let b2 = if b < i { b } else { b + 1 };
        assert(r[a] == s[a2] && r[b] == s[b2]);
        assert(T::kluc(s[a2]) <= T::kluc(s[b2]));
    }
}

/// Zoradená postupnosť, v ktorej niektorý prvok má kľúč `k`, končí kľúčom aspoň `k`.
proof fn lemma_posledny_najvacsi<T: Kluc>(s: Seq<T::V>, k: i32)
    requires
        usporiadane::<T>(s),
        s_klucom::<T>(s, k).len() > 0,
    ensures
        s.len() > 0,
        k <= T::kluc(s.last()),
{
    let f = s_klucom::<T>(s, k);
    lemma_prvok::<T>(s, k, 0);
    let q = choose|q: int| 0 <= q < s.len() && s[q] == f[0];
    assert(T::kluc(s[q]) <= T::kluc(s[s.len() - 1]));
}

/// Dve zoradené postupnosti s rovnakými výbermi pre každý kľúč sú rovnaké: stabilné
/// zoradenie už zoradenej postupnosti ju nemení.
pub proof fn lemma_zoradene_rovnake<T: Kluc>(a: Seq<T::V>, b: Seq<T::V>)
    requires
        usporiadane::<T>(a),
        usporiadane::<T>(b),
        forall|k: i32| #[trigger] s_klucom::<T>(a, k) == s_klucom::<T>(b, k),
    ensures
        a == b,
    decreases a.len() + b.len(),
{
    if a.len() == 0 && b.len() == 0 {
        assert(a =~= b);
    } else if a.len() == 0 {
        let kb = T::kluc(b.last());
        lemma_vo_vybere::<T>(b, b.len() - 1);
        assert(s_klucom::<T>(b, kb).len() > 0);
        assert(s_klucom::<T>(a, kb) =~= Seq::<T::V>::empty()) by {
            reveal_with_fuel(Seq::filter, 1);
        }
        assert(s_klucom::<T>(a, kb) == s_klucom::<T>(b, kb));
    } else if b.len() == 0 {
        let ka = T::kluc(a.last());
        lemma_vo_vybere::<T>(a, a.len() - 1);
        assert(s_klucom::<T>(a, ka).len() > 0);
        assert(s_klucom::<T>(b, ka) =~= Seq::<T::V>::empty()) by {
            reveal_with_fuel(Seq::filter, 1);
        }
        assert(s_klucom::<T>(a, ka) == s_klucom::<T>(b, ka));
    } else {
        let ka = T::kluc(a.last());
        let kb = T::kluc(b.last());
        lemma_vo_vybere::<T>(a, a.len() - 1);
        lemma_vo_vybere::<T>(b, b.len() - 1);
        assert(s_klucom::<T>(a, ka) == s_klucom::<T>(b, ka));
        assert(s_klucom::<T>(a, kb) == s_klucom::<T>(b, kb));
        lemma_posledny_najvacsi::<T>(b, ka);
        lemma_posledny_najvacsi::<T>(a, kb);
        assert(ka == kb);
        let ad = a.drop_last();
        let bd = b.drop_last();
        assert(ad.push(a.last()) =~= a);
        assert(bd.push(b.last()) =~= b);
        lemma_push::<T>(ad, a.last(), ka);
        lemma_push::<T>(bd, b.last(), ka);
        let fa = s_klucom::<T>(a, ka);
        assert(fa[fa.len() - 1] == a.last());
        assert(fa[fa.len() - 1] == b.last());
        assert(s_klucom::<T>(ad, ka) =~= fa.drop_last());
        assert(s_klucom::<T>(bd, ka) =~= fa.drop_last());
        assert forall|k: i32| #[trigger] s_klucom::<T>(ad, k) == s_klucom::<T>(bd, k) by {
            lemma_push::<T>(ad, a.last(), k);
            lemma_push::<T>(bd, b.last(), k);
            assert(s_klucom::<T>(a, k) == s_klucom::<T>(b, k));
        }
        assert forall|x: int, y: int| 0 <= x <= y < ad.len() implies #[trigger] T::kluc(ad[x])
            <= #[trigger] T::kluc(ad[y]) by {
            assert(ad[x] == a[x] && ad[y] == a[y]);
            assert(T::kluc(a[x]) <= T::kluc(a[y]));
        }
        assert forall|x: int, y: int| 0 <= x <= y < bd.len() implies #[trigger] T::kluc(bd[x])
            <= #[trigger] T::kluc(bd[y]) by {
            assert(bd[x] == b[x] && bd[y] == b[y]);
            assert(T::kluc(b[x]) <= T::kluc(b[y]));
        }
        lemma_zoradene_rovnake::<T>(ad, bd);
    }
}

} // verus!
