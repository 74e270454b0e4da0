//! The client's profile store: named connection profiles and the name of the current one.
//!
//! On disk the store is a configuration directory holding `config.json` (the current profile's
//! name) and a `profiles` directory of `<name>.json` files; the caller reads it into a
//! [`ProfileStore`], lets these functions decide, and writes back what they changed.
use vstd::prelude::*;
use crate::pubkey::Pubkey;
use vstd::multiset::Multiset;

verus! {

/// How far a transaction must be confirmed before the client reads it as done.
#[derive(Clone, Copy, Debug, PartialEq, Eq, Structural)]
pub enum CommitmentLevel {
    Processed,
    Confirmed,
    Finalized,
}

/// A named set of connection settings.
#[derive(Debug)]
pub struct Profile {
    pub name: String,
    /// The cluster, by name (`mainnet`, `devnet`, `localnet`, ...).
    pub cluster: String,
    pub keypair_path: String,
    pub multisig: Option<Pubkey>,
    pub rpc_url: String,
    pub program_id: Option<Pubkey>,
    pub commitment: Option<CommitmentLevel>,
    pub marginfi_group: Option<Pubkey>,
    pub marginfi_account: Option<Pubkey>,
}

impl Clone for Profile {
    fn clone(&self) -> (r: Self)
        ensures
            r == *self,
    {
        Profile {
            name: self.name.clone(),
            cluster: self.cluster.clone(),
            keypair_path: self.keypair_path.clone(),
            multisig: self.multisig,
            rpc_url: self.rpc_url.clone(),
            program_id: self.program_id,
            commitment: self.commitment,
            marginfi_group: self.marginfi_group,
            marginfi_account: self.marginfi_account,
        }
    }
}

/// Options given on the command line for every command.
#[derive(Clone, Copy, Debug)]
pub struct GlobalOptions {
    /// Run without asking for confirmation.
    pub skip_confirmation: bool,
    /// The compute-unit price to pay, when given.
    pub compute_unit_price: Option<u64>,
}

/// What a command runs with: the current profile's settings and the global options.
#[derive(Debug)]
pub struct Config {
    pub profile_name: String,
    pub cluster: String,
    pub keypair_path: String,
    pub multisig: Option<Pubkey>,
    pub rpc_url: String,
    pub program_id: Option<Pubkey>,
    pub commitment: Option<CommitmentLevel>,
    pub compute_unit_price: Option<u64>,
    pub skip_confirmation: bool,
}

/// The on-disk profile store.
#[derive(Debug)]
pub struct ProfileStore {
    /// The configuration directory exists.
    pub config_dir_exists: bool,
    /// The current profile's name, as `config.json` holds it (`None` without that file).
    pub current: Option<String>,
    /// The `profiles` directory exists.
    pub profiles_dir_exists: bool,
    /// The stored profiles, one per name.
    pub profiles: Vec<Profile>,
}

/// Why a profile operation fails.
#[derive(Clone, Copy, Debug, PartialEq, Eq, Structural)]
pub enum ProfileError {
    /// No profile store yet (`mfi profile create` first).
    NotConfigured,
    /// A profile of that name exists already.
    AlreadyExists,
    /// No profile of that name exists.
    DoesNotExist,
}

/// The names of the stored profiles, in store order.
pub open spec fn names(profiles: Seq<Profile>) -> Seq<Seq<char>> {
    profiles.map_values(|p: Profile| p.name@)
}

/// The position of the profile named `name`, if any.
pub open spec fn position(profiles: Seq<Profile>, name: Seq<char>) -> Option<int> {
    if exists|i: int| 0 <= i < profiles.len() && profiles[i].name@ == name {
        Some(choose|i: int| 0 <= i < profiles.len() && profiles[i].name@ == name)
    } else {
        None
    }
}

/// No two stored profiles share a name (one file per name).
pub open spec fn names_unique(profiles: Seq<Profile>) -> bool {
    forall|i: int, j: int|
        0 <= i < profiles.len() && 0 <= j < profiles.len() && i != j ==> profiles[i].name@
            != profiles[j].name@
}

/// Whether no two of `profiles` share a name.
pub fn names_unique_exec(profiles: &Vec<Profile>) -> (r: bool)
    ensures
        r == names_unique(profiles@),
{
    let mut i: usize = 0;
    while i < profiles.len()
        invariant
            i <= profiles.len(),
            forall|a: int, b: int|
                0 <= a < i && 0 <= b < profiles.len() && a != b ==> profiles@[a].name@
                    != profiles@[b].name@,
        decreases profiles.len() - i,
    {
        let mut j: usize = 0;
        while j < profiles.len()
            invariant
                i < profiles.len(),
                j <= profiles.len(),
                forall|a: int, b: int|
                    0 <= a < i && 0 <= b < profiles.len() && a != b ==> profiles@[a].name@
                        != profiles@[b].name@,
                forall|b: int| 0 <= b < j && b != i ==> profiles@[i as int].name@ != profiles@[b].name@,
            decreases profiles.len() - j,
        {
            if j != i && profiles[i].name == profiles[j].name {
                return false;
            }
            j = j + 1;
        }
        i = i + 1;
    }
    true
}

/// The profile named `name`, if any.
pub open spec fn lookup(profiles: Seq<Profile>, name: Seq<char>) -> Option<Profile> {
    match position(profiles, name) {
        Some(i) => Some(profiles[i]),
        None => None,
    }
}

/// The position of the profile named `name` in `profiles`.
fn find_profile(profiles: &Vec<Profile>, name: &String) -> (r: Option<usize>)
    ensures
        r is Some <==> position(profiles@, name@) is Some,
        r matches Some(i) ==> i < profiles.len() && profiles@[i as int].name@ == name@,
        names_unique(profiles@) ==> (r matches Some(i) ==> position(profiles@, name@) == Some(
            i as int,
        )),
{
    let mut i: usize = 0;
    while i < profiles.len()
        invariant
            i <= profiles.len(),
            forall|j: int| 0 <= j < i ==> profiles@[j].name@ != name@,
        decreases profiles.len() - i,
    {
        if profiles[i].name == *name {
            proof {
                let p = position(profiles@, name@);
                assert(profiles@[i as int].name@ == name@);
                assert(p is Some);
            }
            return Some(i);
        }
        i = i + 1;
    }
    None
}

/// The current profile: the store must be set up (`NotConfigured`) and the current profile must
/// exist (`DoesNotExist`).
pub open spec fn spec_load_profile(store: ProfileStore) -> Result<Profile, ProfileError> {
    match store.current {
        None => Err(ProfileError::NotConfigured),
        Some(n) => match lookup(store.profiles@, n@) {
            None => Err(ProfileError::DoesNotExist),
            Some(p) => Ok(p),
        },
    }
}

/// The current profile.
pub fn load_profile(store: &ProfileStore) -> (r: Result<Profile, ProfileError>)
    requires
        names_unique(store.profiles@),
    ensures
        r == spec_load_profile(*store),
{
    match &store.current {
        None => Err(ProfileError::NotConfigured),
        Some(n) => match find_profile(&store.profiles, n) {
            None => Err(ProfileError::DoesNotExist),
            Some(i) => Ok(store.profiles[i].clone()),
        },
    }
}

/// The settings a command runs with, from a profile and the global options.
pub open spec fn spec_config(p: Profile, global_options: GlobalOptions) -> Config {
    Config {
        profile_name: p.name,
        cluster: p.cluster,
        keypair_path: p.keypair_path,
        multisig: p.multisig,
        rpc_url: p.rpc_url,
        program_id: p.program_id,
        commitment: p.commitment,
        compute_unit_price: global_options.compute_unit_price,
        skip_confirmation: global_options.skip_confirmation,
    }
}

impl Profile {
    /// The settings a command runs with under this profile.
    pub fn get_config(&self, global_options: &GlobalOptions) -> (r: Config)
        ensures
            r == spec_config(*self, *global_options),
    {
        Config {
            profile_name: self.name.clone(),
            cluster: self.cluster.clone(),
            keypair_path: self.keypair_path.clone(),
            multisig: self.multisig,
            rpc_url: self.rpc_url.clone(),
            program_id: self.program_id,
            commitment: self.commitment,
            compute_unit_price: global_options.compute_unit_price,
            skip_confirmation: global_options.skip_confirmation,
        }
    }
}

/// The current profile and the settings a command runs with under it.
pub fn load_profile_and_config(store: &ProfileStore, global_options: &GlobalOptions) -> (r: Result<
    (Profile, Config),
    ProfileError,
>)
    requires
        names_unique(store.profiles@),
    ensures
        r matches Ok((p, c)) ==> spec_load_profile(*store) == Ok::<Profile, ProfileError>(p) && c
            == spec_config(p, *global_options),
        r matches Err(e) ==> spec_load_profile(*store) == Err::<Profile, ProfileError>(e),
{
    let profile = match load_profile(store) {
        Err(e) => {
            return Err(e);
        },
        Ok(p) => p,
    };
    let config = profile.get_config(global_options);
    Ok((profile, config))
}

/// Once a profile is made current, loading reads that profile: a store that names an existing
/// profile as current loads it.
pub proof fn lemma_load_after_set(before: ProfileStore, after: ProfileStore, name: String)
    requires
        names_unique(before.profiles@),
        position(before.profiles@, name@) is Some,
        after.current == Some(name),
        after.profiles@ == before.profiles@,
    ensures
        spec_load_profile(after) == Ok::<Profile, ProfileError>(lookup(before.profiles@, name@)->Some_0),
        spec_load_profile(after)->Ok_0.name@ == name@,
{
}

/// Creating a profile: the configuration directory is made if missing, with the new profile as
/// the current one; the profiles directory is made if missing; then the profile is stored, unless
/// one of that name exists (`AlreadyExists`, with the directories left made).
pub fn create_profile(store: &mut ProfileStore, profile: Profile) -> (r: Result<(), ProfileError>)
    requires
        names_unique(old(store).profiles@),
    ensures
        final(store).config_dir_exists,
        final(store).profiles_dir_exists,
        final(store).current == if old(store).config_dir_exists {
            old(store).current
        } else {
            Some(profile.name)
        },
        names_unique(final(store).profiles@),
        position(old(store).profiles@, profile.name@) is Some ==> r == Err::<(), ProfileError>(
            ProfileError::AlreadyExists,
        ) && final(store).profiles@ == old(store).profiles@,
        position(old(store).profiles@, profile.name@) is None ==> r == Ok::<(), ProfileError>(())
            && final(store).profiles@ == old(store).profiles@.push(profile),
{
    if !store.config_dir_exists {
        store.config_dir_exists = true;
        store.current = Some(profile.name.clone());
    }
    store.profiles_dir_exists = true;
    match find_profile(&store.profiles, &profile.name) {
        Some(_) => Err(ProfileError::AlreadyExists),
        None => {
            let ghost before = store.profiles@;
            store.profiles.push(profile);
            proof {
                assert forall|i: int, j: int|
                    0 <= i < store.profiles@.len() && 0 <= j < store.profiles@.len() && i != j
                    implies store.profiles@[i].name@ != store.profiles@[j].name@ by {
                    if i < before.len() && j < before.len() {
                        assert(store.profiles@[i] == before[i]);
                        assert(store.profiles@[j] == before[j]);
                    } else if i < before.len() {
                        assert(store.profiles@[i] == before[i]);
                    } else if j < before.len() {
                        assert(store.profiles@[j] == before[j]);
                    }
                }
            }
            Ok(())
        },
    }
}

/// Making `name` the current profile: the store must be set up (`NotConfigured`) and the profile
/// must exist (`DoesNotExist`).
pub fn set_profile(store: &mut ProfileStore, name: String) -> (r: Result<(), ProfileError>)
    ensures
        old(store).current is None ==> r == Err::<(), ProfileError>(ProfileError::NotConfigured),
        old(store).current is Some && position(old(store).profiles@, name@) is None ==> r == Err::<
            (),
            ProfileError,
        >(ProfileError::DoesNotExist),
        old(store).current is Some && position(old(store).profiles@, name@) is Some ==> r == Ok::<
            (),
            ProfileError,
        >(()),
        r is Ok ==> final(store).current == Some(name),
        r is Err ==> final(store).current == old(store).current,
        final(store).profiles@ == old(store).profiles@,
        final(store).config_dir_exists == old(store).config_dir_exists,
        final(store).profiles_dir_exists == old(store).profiles_dir_exists,
{
    if store.current.is_none() {
        return Err(ProfileError::NotConfigured);
    }
    match find_profile(&store.profiles, &name) {
        None => Err(ProfileError::DoesNotExist),
        Some(_) => {
            store.current = Some(name);
            Ok(())
        },
    }
}

/// Deleting the profile named `name`, which must exist (`DoesNotExist`). The other profiles stay,
/// in their order; the current profile's name is not changed.
pub fn delete_profile(store: &mut ProfileStore, name: String) -> (r: Result<(), ProfileError>)
    requires
        names_unique(old(store).profiles@),
    ensures
        position(old(store).profiles@, name@) is None ==> r == Err::<(), ProfileError>(
            ProfileError::DoesNotExist,
        ) && final(store).profiles@ == old(store).profiles@,
        position(old(store).profiles@, name@) is Some ==> r == Ok::<(), ProfileError>(())
            && final(store).profiles@ == old(store).profiles@.remove(
            position(old(store).profiles@, name@)->Some_0,
        ),
        position(final(store).profiles@, name@) is None,
        names_unique(final(store).profiles@),
        final(store).current == old(store).current,
        final(store).config_dir_exists == old(store).config_dir_exists,
        final(store).profiles_dir_exists == old(store).profiles_dir_exists,
{
    match find_profile(&store.profiles, &name) {
        None => Err(ProfileError::DoesNotExist),
        Some(i) => {
            let ghost before = store.profiles@;
            store.profiles.remove(i);
            proof {
                assert(store.profiles@ =~= before.remove(i as int));
                assert forall|a: int, b: int|
                    0 <= a < store.profiles@.len() && 0 <= b < store.profiles@.len() && a != b
                    implies store.profiles@[a].name@ != store.profiles@[b].name@ by {
                    let a2 = if a < i { a } else { a + 1 };
                    let b2 = if b < i { b } else { b + 1 };
                    assert(store.profiles@[a] == before[a2]);
                    assert(store.profiles@[b] == before[b2]);
                }
                if position(store.profiles@, name@) is Some {
                    let j = choose|j: int| 0 <= j < store.profiles@.len() && store.profiles@[j].name@ == name@;
                    let j2 = if j < i { j } else { j + 1 };
                    assert(store.profiles@[j] == before[j2]);
                }
            }
            Ok(())
        },
    }
}

/// `a` is at or before `b` in the order of `String`'s `Ord`: compared character by character by
/// code point (the order of their UTF-8 bytes), a prefix first.
pub open spec fn chars_le(a: Seq<char>, b: Seq<char>) -> bool
    decreases a.len(),
{
    if a.len() == 0 {
        true
    } else if b.len() == 0 {
        false
    } else if a[0] < b[0] {
        true
    } else if a[0] == b[0] {
        chars_le(a.drop_first(), b.drop_first())
    } else {
        false
    }
}

/// The order is total.
pub proof fn lemma_chars_le_total(a: Seq<char>, b: Seq<char>)
    ensures
        chars_le(a, b) || chars_le(b, a),
    decreases a.len(),
{
    if a.len() > 0 && b.len() > 0 && a[0] == b[0] {
        lemma_chars_le_total(a.drop_first(), b.drop_first());
    }
}

/// The order is transitive.
pub proof fn lemma_chars_le_transitive(a: Seq<char>, b: Seq<char>, c: Seq<char>)
    requires
        chars_le(a, b),
        chars_le(b, c),
    ensures
        chars_le(a, c),
    decreases a.len(),
{
    if a.len() > 0 && b.len() > 0 && c.len() > 0 && a[0] == b[0] && b[0] == c[0] {
        lemma_chars_le_transitive(a.drop_first(), b.drop_first(), c.drop_first());
    }
}

/// Whether `a` comes strictly before `b` in `String`'s order.
fn string_lt(a: &String, b: &String) -> (r: bool)
    ensures
        r == !chars_le(b@, a@),
{
    let sa = a.as_str();
    let sb = b.as_str();
    let na = sa.unicode_len();
    let nb = sb.unicode_len();
    proof {
        assert(a@.skip(0) =~= a@);
        assert(b@.skip(0) =~= b@);
    }
    let mut i: usize = 0;
    while i < na && i < nb
        invariant
            na == a@.len(),
            nb == b@.len(),
            sa@ == a@,
            sb@ == b@,
            i <= na,
            i <= nb,
            chars_le(b@, a@) == chars_le(b@.skip(i as int), a@.skip(i as int)),
        decreases na - i,
    {
        let ca = sa.get_char(i);
        let cb = sb.get_char(i);
        proof {
            assert(a@.skip(i as int)[0] == ca);
            assert(b@.skip(i as int)[0] == cb);
            assert(a@.skip(i as int).drop_first() =~= a@.skip(i + 1));
            assert(b@.skip(i as int).drop_first() =~= b@.skip(i + 1));
        }
        if ca < cb {
            return true;
        }
        if ca != cb {
            return false;
        }
        i = i + 1;
    }
    proof {
        if i == nb {
            assert(b@.skip(i as int).len() == 0);
        } else {
            assert(a@.skip(i as int).len() == 0);
        }
    }
    i < nb
}

/// The views of `v` are in `String`'s order.
pub open spec fn strings_sorted(v: Seq<String>) -> bool {
    forall|i: int, j: int| 0 <= i < j < v.len() ==> chars_le(#[trigger] v[i]@, #[trigger] v[j]@)
}

/// `v` in `String`'s order (a selection sort): the same strings, sorted.
pub fn sort_strings(v: Vec<String>) -> (r: Vec<String>)
    ensures
        r@.to_multiset() == v@.to_multiset(),
        strings_sorted(r@),
{
    broadcast use vstd::seq_lib::group_to_multiset_ensures;

    let ghost orig = v@;
    let mut rest = v;
    let mut out: Vec<String> = Vec::new();
    while rest.len() > 0
        invariant
            out@.to_multiset().add(rest@.to_multiset()) == orig.to_multiset(),
            strings_sorted(out@),
            forall|i: int, j: int|
                0 <= i < out@.len() && 0 <= j < rest@.len() ==> chars_le(out@[i]@, rest@[j]@),
        decreases rest.len(),
    {
        let mut m: usize = 0;
        let mut k: usize = 1;
        proof {
            lemma_chars_le_total(rest@[0]@, rest@[0]@);
        }
        while k < rest.len()
            invariant
                0 < rest.len(),
                m < rest.len(),
                1 <= k <= rest.len(),
                forall|j: int| 0 <= j < k ==> chars_le(rest@[m as int]@, #[trigger] rest@[j]@),
            decreases rest.len() - k,
        {
            if string_lt(&rest[k], &rest[m]) {
                proof {
                    lemma_chars_le_total(rest@[k as int]@, rest@[m as int]@);
                    assert forall|j: int| 0 <= j < k implies chars_le(rest@[k as int]@, #[trigger] rest@[j]@) by {
                        lemma_chars_le_transitive(rest@[k as int]@, rest@[m as int]@, rest@[j]@);
                    }
                    assert(chars_le(rest@[k as int]@, rest@[k as int]@)) by {
                        lemma_chars_le_total(rest@[k as int]@, rest@[k as int]@);
                    }
                }
                m = k;
            }
            k = k + 1;
        }
        let ghost old_rest = rest@;
        let ghost old_out = out@;
        let x = rest.remove(m);
        out.push(x);
        proof {
            assert(old_rest.remove(m as int) == rest@);
            vstd::seq_lib::to_multiset_remove(old_rest, m as int);
            assert(out@ == old_out.push(x));
            vstd::seq_lib::to_multiset_build(old_out, x);
            assert(old_rest[m as int] == x);
            assert(old_rest.contains(x));
            old_rest.to_multiset_ensures();
            assert(out@.to_multiset().add(rest@.to_multiset()) =~= orig.to_multiset());
            assert forall|i: int, j: int|
                0 <= i < out@.len() && 0 <= j < rest@.len() implies chars_le(out@[i]@, rest@[j]@) by {
                if i == out@.len() - 1 {
                    if j < m {
                        assert(rest@[j] == old_rest[j]);
                    } else {
                        assert(rest@[j] == old_rest[j + 1]);
                    }
                } else {
                    if j < m {
                        assert(rest@[j] == old_rest[j]);
                    } else {
                        assert(rest@[j] == old_rest[j + 1]);
                    }
                }
            }
            assert forall|i: int, j: int| 0 <= i < j < out@.len() implies chars_le(
                #[trigger] out@[i]@,
                #[trigger] out@[j]@,
            ) by {
                if j == out@.len() - 1 {
                    assert(out@[j] == old_rest[m as int]);
                    assert(out@[i] == old_out[i]);
                } else {
                    assert(out@[i] == old_out[i]);
                    assert(out@[j] == old_out[j]);
                }
            }
        }
    }
    proof {
        assert(rest@.to_multiset() =~= Multiset::empty());
        assert(out@.to_multiset() =~= orig.to_multiset());
    }
    out
}

/// What listing the profiles shows: the current profile's name and the profile files, sorted.
#[derive(Debug)]
pub struct ProfileListing {
    pub current: String,
    pub files: Vec<String>,
}

/// Listing the profiles: the profiles directory must exist and `config.json` must name a
/// current profile (`NotConfigured` otherwise); the directory's file names come back sorted.
pub fn list_profiles(profiles_dir_exists: bool, files: Vec<String>, current: Option<String>) -> (r:
    Result<ProfileListing, ProfileError>)
    ensures
        !profiles_dir_exists || current is None ==> r == Err::<ProfileListing, ProfileError>(
            ProfileError::NotConfigured,
        ),
        profiles_dir_exists && current is Some ==> (r matches Ok(l) && l.current == current->Some_0
            && l.files@.to_multiset() == files@.to_multiset() && strings_sorted(l.files@)),
{
    if !profiles_dir_exists {
        return Err(ProfileError::NotConfigured);
    }
    match current {
        None => Err(ProfileError::NotConfigured),
        Some(c) => Ok(ProfileListing { current: c, files: sort_strings(files) }),
    }
}

/// Changes to a profile's settings; `None` leaves a setting as it is.
#[derive(Debug)]
pub struct ProfileUpdate {
    pub new_name: Option<String>,
    pub cluster: Option<String>,
    pub keypair_path: Option<String>,
    pub multisig: Option<Pubkey>,
    pub rpc_url: Option<String>,
    pub program_id: Option<Pubkey>,
    pub commitment: Option<CommitmentLevel>,
    pub marginfi_group: Option<Pubkey>,
    pub marginfi_account: Option<Pubkey>,
}

pub open spec fn or_keep<T>(new: Option<T>, old: T) -> T {
    match new {
        Some(v) => v,
        None => old,
    }
}

/// `p` with the changes of `u` applied.
pub open spec fn updated(p: Profile, u: ProfileUpdate) -> Profile {
    Profile {
        name: or_keep(u.new_name, p.name),
        cluster: or_keep(u.cluster, p.cluster),
        keypair_path: or_keep(u.keypair_path, p.keypair_path),
        multisig: match u.multisig {
            Some(v) => Some(v),
            None => p.multisig,
        },
        rpc_url: or_keep(u.rpc_url, p.rpc_url),
        program_id: match u.program_id {
            Some(v) => Some(v),
            None => p.program_id,
        },
        commitment: match u.commitment {
            Some(v) => Some(v),
            None => p.commitment,
        },
        marginfi_group: match u.marginfi_group {
            Some(v) => Some(v),
            None => p.marginfi_group,
        },
        marginfi_account: match u.marginfi_account {
            Some(v) => Some(v),
            None => p.marginfi_account,
        },
    }
}

/// In a store without duplicate names, the profile at `i` is the one its name finds.
pub proof fn lemma_position_unique(profiles: Seq<Profile>, i: int)
    requires
        names_unique(profiles),
        0 <= i < profiles.len(),
    ensures
        position(profiles, profiles[i].name@) == Some(i),
{
    let n = profiles[i].name@;
    assert(position(profiles, n) is Some);
    let j = position(profiles, n)->Some_0;
    assert(profiles[j].name@ == n);
}

/// Writes `p` as the file of its name: it replaces a profile of that name, or joins the store.
fn write_profile(profiles: &mut Vec<Profile>, p: Profile)
    requires
        names_unique(old(profiles)@),
    ensures
        names_unique(final(profiles)@),
        lookup(final(profiles)@, p.name@) == Some(p),
        forall|n: Seq<char>| n != p.name@ ==> lookup(final(profiles)@, n) == lookup(old(profiles)@, n),
{
    let ghost before = profiles@;
    let ghost pn = p.name@;
    match find_profile(profiles, &p.name) {
        Some(j) => {
            profiles.set(j, p);
            proof {
                assert forall|a: int, b: int|
                    0 <= a < profiles@.len() && 0 <= b < profiles@.len() && a != b
                    implies profiles@[a].name@ != profiles@[b].name@ by {
                    if a != j && b != j {
                        assert(profiles@[a] == before[a]);
                        assert(profiles@[b] == before[b]);
                    } else if a == j {
                        assert(profiles@[b] == before[b]);
                        assert(before[j as int].name@ == pn);
                    } else {
                        assert(profiles@[a] == before[a]);
                        assert(before[j as int].name@ == pn);
                    }
                }
                lemma_position_unique(profiles@, j as int);
                assert forall|n: Seq<char>| n != pn implies lookup(profiles@, n) == lookup(before, n) by {
                    if position(before, n) is Some {
                        let k = choose|k: int| 0 <= k < before.len() && before[k].name@ == n;
                        assert(k != j);
                        assert(profiles@[k] == before[k]);
                        lemma_position_unique(before, k);
                        lemma_position_unique(profiles@, k);
                    }
                    if position(profiles@, n) is Some {
                        let k = choose|k: int| 0 <= k < profiles@.len() && profiles@[k].name@ == n;
                        assert(k != j);
                        assert(profiles@[k] == before[k]);
                        lemma_position_unique(before, k);
                    }
                }
            }
        },
        None => {
            profiles.push(p);
            proof {
                let last = before.len() as int;
                assert forall|a: int, b: int|
                    0 <= a < profiles@.len() && 0 <= b < profiles@.len() && a != b
                    implies profiles@[a].name@ != profiles@[b].name@ by {
                    if a < last {
                        assert(profiles@[a] == before[a]);
                    }
                    if b < last {
                        assert(profiles@[b] == before[b]);
                    }
                }
                lemma_position_unique(profiles@, last);
                assert forall|n: Seq<char>| n != pn implies lookup(profiles@, n) == lookup(before, n) by {
                    if position(before, n) is Some {
                        let k = choose|k: int| 0 <= k < before.len() && before[k].name@ == n;
                        assert(profiles@[k] == before[k]);
                        lemma_position_unique(before, k);
                        lemma_position_unique(profiles@, k);
                    }
                    if position(profiles@, n) is Some {
                        let k = choose|k: int| 0 <= k < profiles@.len() && profiles@[k].name@ == n;
                        assert(k != last);
                        assert(profiles@[k] == before[k]);
                        lemma_position_unique(before, k);
                    }
                }
            }
        },
    }
}

/// Changing the settings of the profile named `name`, which must exist (`DoesNotExist`). The
/// changed profile is written under its (possibly new) name, replacing any profile of that name;
/// when a new name was given, the file of the old name is deleted afterwards (so a rename to the
/// same name leaves no profile of that name). Other profiles keep their settings.
pub fn configure_profile(store: &mut ProfileStore, name: String, update: ProfileUpdate) -> (r:
    Result<(), ProfileError>)
    requires
        names_unique(old(store).profiles@),
    ensures
        names_unique(final(store).profiles@),
        final(store).current == old(store).current,
        lookup(old(store).profiles@, name@) is None ==> r == Err::<(), ProfileError>(
            ProfileError::DoesNotExist,
        ) && final(store).profiles@ == old(store).profiles@,
        lookup(old(store).profiles@, name@) is Some ==> r == Ok::<(), ProfileError>(()),
        lookup(old(store).profiles@, name@) matches Some(p) ==> ({
            let q = updated(p, update);
            &&& (update.new_name is None || q.name@ != name@) ==> lookup(final(store).profiles@, q.name@)
                == Some(q)
            &&& update.new_name is Some ==> lookup(final(store).profiles@, name@) is None
            &&& forall|n: Seq<char>|
                n != name@ && n != q.name@ ==> lookup(final(store).profiles@, n) == lookup(
                    old(store).profiles@,
                    n,
                )
        }),
{
    let i = match find_profile(&store.profiles, &name) {
        None => {
            return Err(ProfileError::DoesNotExist);
        },
        Some(i) => i,
    };
    proof {
        lemma_position_unique(store.profiles@, i as int);
    }
    let ghost before = store.profiles@;
    let old_profile = store.profiles[i].clone();
    let renamed = update.new_name.is_some();
    let new_profile = Profile {
        name: match update.new_name {
            Some(v) => v,
            None => old_profile.name,
        },
        cluster: match update.cluster {
            Some(v) => v,
            None => old_profile.cluster,
        },
        keypair_path: match update.keypair_path {
            Some(v) => v,
            None => old_profile.keypair_path,
        },
        multisig: match update.multisig {
            Some(v) => Some(v),
            None => old_profile.multisig,
        },
        rpc_url: match update.rpc_url {
            Some(v) => v,
            None => old_profile.rpc_url,
        },
        program_id: match update.program_id {
            Some(v) => Some(v),
            None => old_profile.program_id,
        },
        commitment: match update.commitment {
            Some(v) => Some(v),
            None => old_profile.commitment,
        },
        marginfi_group: match update.marginfi_group {
            Some(v) => Some(v),
            None => old_profile.marginfi_group,
        },
        marginfi_account: match update.marginfi_account {
            Some(v) => Some(v),
            None => old_profile.marginfi_account,
        },
    };
    let ghost q = new_profile;
    write_profile(&mut store.profiles, new_profile);
    if renamed {
        let ghost mid = store.profiles@;
        let removed = delete_profile(store, name);
        proof {
            assert forall|n: Seq<char>| n != name@ implies lookup(store.profiles@, n) == lookup(mid, n) by {
                if position(mid, name@) is Some {
                    let k = position(mid, name@)->Some_0;
                    if position(mid, n) is Some {
                        let j = choose|j: int| 0 <= j < mid.len() && mid[j].name@ == n;
                        lemma_position_unique(mid, j);
                        assert(j != k);
                        let j2 = if j < k { j } else { j - 1 };
                        assert(store.profiles@[j2] == mid[j]);
                        lemma_position_unique(store.profiles@, j2);
                    }
                    if position(store.profiles@, n) is Some {
                        let j = choose|j: int| 0 <= j < store.profiles@.len() && store.profiles@[j].name@ == n;
                        let j2 = if j < k { j } else { j + 1 };
                        assert(store.profiles@[j] == mid[j2]);
                        lemma_position_unique(mid, j2);
                    }
                }
            }
        }
    }
    Ok(())
}

} // verus!
