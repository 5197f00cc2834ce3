use vstd::prelude::*;

verus! {

/// The avatars known by user name: the last entry for a name is the one that holds.
pub open spec fn mapa_pfps(v: Seq<(String, String)>) -> Map<Seq<char>, Seq<char>>
    decreases v.len(),
{
    if v.len() == 0 {
        Map::empty()
    } else {
        mapa_pfps(v.drop_last()).insert(v.last().0@, v.last().1@)
    }
}

/// The entries of `v` whose name is not `k`.
pub open spec fn sem_chave(v: Seq<(String, String)>, k: Seq<char>) -> Seq<(String, String)>
    decreases v.len(),
{
    if v.len() == 0 {
        v
    } else if v.last().0@ == k {
        sem_chave(v.drop_last(), k)
    } else {
        sem_chave(v.drop_last(), k).push(v.last())
    }
}

proof fn lema_sem_chave(v: Seq<(String, String)>, k: Seq<char>)
    ensures
        mapa_pfps(sem_chave(v, k)) == mapa_pfps(v).remove(k),
    decreases v.len(),
{
    if v.len() > 0 {
        lema_sem_chave(v.drop_last(), k);
        let s = sem_chave(v.drop_last(), k);
        if v.last().0@ == k {
            assert(mapa_pfps(v).remove(k) =~= mapa_pfps(v.drop_last()).remove(k));
        } else {
            assert(s.push(v.last()).drop_last() =~= s);
            assert(mapa_pfps(v).remove(k) =~= mapa_pfps(v.drop_last()).remove(k).insert(v.last().0@, v.last().1@));
        }
    }
}

/// The avatar known for `usuario`, if any.
pub fn pfp_de(pfps: &Vec<(String, String)>, usuario: &String) -> (r: Option<String>)
    ensures
        match r {
            Some(p) => mapa_pfps(pfps@).contains_key(usuario@) && mapa_pfps(pfps@)[usuario@] == p@,
            None => !mapa_pfps(pfps@).contains_key(usuario@),
        },
{
    let mut i = pfps.len();
    assert(pfps@.take(i as int) =~= pfps@);
    while i > 0
        invariant
            i <= pfps@.len(),
            mapa_pfps(pfps@).contains_key(usuario@) == mapa_pfps(pfps@.take(i as int)).contains_key(usuario@),
            mapa_pfps(pfps@).contains_key(usuario@) ==> mapa_pfps(pfps@)[usuario@] == mapa_pfps(pfps@.take(i as int))[usuario@],
        decreases i,
    {
        assert(pfps@.take(i as int).drop_last() =~= pfps@.take(i - 1));
        assert(pfps@.take(i as int).last() == pfps@[i - 1]);
        if pfps[i - 1].0 == *usuario {
            return Some(pfps[i - 1].1.clone());
        }
        i = i - 1;
    }
    assert(pfps@.take(0) =~= Seq::<(String, String)>::empty());
    None
}

/// Records `pfp` as the avatar of `usuario`.
pub fn gravar_pfp(pfps: &mut Vec<(String, String)>, usuario: String, pfp: String)
    ensures
        mapa_pfps(final(pfps)@) == mapa_pfps(old(pfps)@).insert(usuario@, pfp@),
{
    let ghost antigo = pfps@;
    let mut novo: Vec<(String, String)> = Vec::new();
    let mut i: usize = 0;
    while i < pfps.len()
        invariant
            i <= pfps@.len(),
            pfps@ == antigo,
            novo@ == sem_chave(antigo.take(i as int), usuario@),
        decreases pfps@.len() - i,
    {
        assert(antigo.take(i + 1).drop_last() =~= antigo.take(i as int));
        if pfps[i].0 != usuario {
            let par = (pfps[i].0.clone(), pfps[i].1.clone());
            novo.push(par);
        }
        i = i + 1;
    }
    assert(antigo.take(antigo.len() as int) =~= antigo);
    proof {
        lema_sem_chave(antigo, usuario@);
    }
    let ghost base = novo@;
    novo.push((usuario, pfp));
    assert(novo@.drop_last() =~= base);
    assert(mapa_pfps(novo@) =~= mapa_pfps(antigo).insert(usuario@, pfp@));
    *pfps = novo;
}

} // verus!
