//! How the node reads its environment variables: a superadmin to create as
//! "username::password", initial peers as a comma-separated list, and when
//! JWT keys are missing. Reading the variables and acting on them happen
//! outside.
use crate::config::Admin;
use vstd::prelude::*;

verus! {

broadcast use vstd::string::group_string_axioms;

/// The pieces of `s` between the separator `c`, as `str::split` gives them.
pub open spec fn split_on(s: Seq<char>, c: char) -> Seq<Seq<char>>
    decreases s.len(),
{
    if s.len() == 0 {
        seq![Seq::empty()]
    } else {
        let rest = split_on(s.drop_last(), c);
        if s.last() == c {
            rest.push(Seq::empty())
        } else {
            rest.update(rest.len() - 1, rest.last().push(s.last()))
        }
    }
}

/// Splitting never gives an empty list.
proof fn lemma_split_on_nonempty(s: Seq<char>, c: char)
    ensures
        split_on(s, c).len() >= 1,
    decreases s.len(),
{
    if s.len() > 0 {
        lemma_split_on_nonempty(s.drop_last(), c);
    }
}

/// The texts of a list of strings.
pub open spec fn strings_view(v: Seq<String>) -> Seq<Seq<char>> {
    v.map_values(|s: String| s@)
}

/// The initial peers named by a comma-separated list.
pub fn split_peers(peers: &str) -> (r: Vec<String>)
    ensures
        strings_view(r@) == split_on(peers@, ','),
{
    let n = peers.unicode_len();
    let mut pieces: Vec<String> = Vec::new();
    let mut start: usize = 0;
    let mut i: usize = 0;
    proof {
        assert(peers@.take(0) =~= Seq::<char>::empty());
        assert(strings_view(pieces@).push(peers@.subrange(0, 0)) =~= seq![Seq::<char>::empty()]);
    }
    while i < n
        invariant
            n == peers@.len(),
            start <= i <= n,
            strings_view(pieces@).push(peers@.subrange(start as int, i as int)) == split_on(peers@.take(i as int), ','),
        decreases n - i,
    {
        let ghost before = split_on(peers@.take(i as int), ',');
        proof {
            assert(peers@.take(i + 1).drop_last() =~= peers@.take(i as int));
            assert(peers@.take(i + 1).last() == peers@[i as int]);
            lemma_split_on_nonempty(peers@.take(i as int), ',');
        }
        if peers.get_char(i) == ',' {
            let piece = peers.substring_char(start, i).to_string();
            pieces.push(piece);
            start = i + 1;
            proof {
                assert(strings_view(pieces@) =~= before);
                assert(peers@.subrange(start as int, i + 1) =~= Seq::<char>::empty());
            }
        } else {
            proof {
                assert(peers@.subrange(start as int, i + 1) =~= peers@.subrange(start as int, i as int).push(peers@[i as int]));
            }
        }
        i = i + 1;
    }
    let last = peers.substring_char(start, n).to_string();
    pieces.push(last);
    proof {
        assert(peers@.take(n as int) =~= peers@);
        assert(strings_view(pieces@) =~= split_on(peers@, ','));
    }
    pieces
}

/// `i` is where `"::"` first occurs in `s`.
pub open spec fn first_double_colon(s: Seq<char>, i: int) -> bool {
    &&& 0 <= i && i + 1 < s.len()
    &&& s[i] == ':' && s[i + 1] == ':'
    &&& forall|j: int| 0 <= j < i ==> !(s[j] == ':' && #[trigger] s[j + 1] == ':')
}

/// A user to create, given as `"username::password"`: the text before the
/// first `"::"` and the text after it; `None` when there is no `"::"`.
pub fn split_user_spec(spec: &str) -> (r: Option<(String, String)>)
    ensures
        match r {
            Some((user, password)) => exists|i: int|
                first_double_colon(spec@, i) && user@ == spec@.subrange(0, i) && password@ == spec@.subrange(
                    i + 2,
                    spec@.len() as int,
                ),
            None => forall|i: int| 0 <= i && i + 1 < spec@.len() ==> !(spec@[i] == ':' && #[trigger] spec@[i + 1] == ':'),
        },
{
    let n = spec.unicode_len();
    if n < 2 {
        return None;
    }
    let mut i: usize = 0;
    while i + 1 < n
        invariant
            n == spec@.len(),
            n >= 2,
            i + 1 <= n,
            forall|j: int| 0 <= j < i ==> !(spec@[j] == ':' && #[trigger] spec@[j + 1] == ':'),
        decreases n - i,
    {
        if spec.get_char(i) == ':' && spec.get_char(i + 1) == ':' {
            let user = spec.substring_char(0, i).to_string();
            let password = spec.substring_char(i + 2, n).to_string();
            assert(first_double_colon(spec@, i as int));
            return Some((user, password));
        }
        i = i + 1;
    }
    None
}

/// JWT keys are generated when asked for and the admin settings lack one of
/// the two keys.
pub fn needs_jwt_keys(admin: &Admin) -> (r: bool)
    ensures
        r == (admin.jwt_private_key is None || admin.jwt_public_key is None),
{
    admin.jwt_private_key.is_none() || admin.jwt_public_key.is_none()
}

/// The error the node stops with when a primary wallet password is given
/// but no primary wallet is configured.
pub open spec fn no_primary_wallet_message() -> Seq<char> {
    "CHAMP_PRIMARY_WALLET_PASSWORD defined but no primary wallet to unlock. Specify primary wallet in config.consensus.primary_wallet"@
}

/// The wallet to unlock with the primary wallet password: the configured
/// primary wallet; without one, the node stops with
/// [`no_primary_wallet_message`].
pub fn primary_wallet_to_unlock(primary_wallet: &Option<String>) -> (r: Result<String, String>)
    ensures
        match primary_wallet {
            Some(w) => r matches Ok(x) && x@ == w@,
            None => r matches Err(m) && m@ == no_primary_wallet_message(),
        },
{
    match primary_wallet {
        Some(w) => Ok(w.clone()),
        None => {
            let m = "CHAMP_PRIMARY_WALLET_PASSWORD defined but no primary wallet to unlock. Specify primary wallet in config.consensus.primary_wallet";
            proof {
                reveal_strlit(
                    "CHAMP_PRIMARY_WALLET_PASSWORD defined but no primary wallet to unlock. Specify primary wallet in config.consensus.primary_wallet",
                );
            }
            Err(m.to_string())
        },
    }
}

} // verus!
