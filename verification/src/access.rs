//! Access control and user administration: credential masking, Discord
//! role permissions, and the admin operations on user rows.

use vstd::prelude::*;
use vstd::string::StrSliceExecFns;
use vstd::string::StringExecFns;
use crate::errors::AppError;
use crate::models::{UserModel, UserRole};
use crate::rowseq::update_first;
use crate::store::{user_key, Store, StoreModel};
use crate::Config;

verus! {

/// A run of asterisks.
pub open spec fn stars(n: int) -> Seq<char>
    decreases n,
{
    if n <= 0 {
        Seq::<char>::empty()
    } else {
        stars(n - 1).push('*')
    }
}

/// What masking a credential yields: a short key is fully starred, a
/// longer one shows its first four and last four characters.
pub open spec fn masked_key(key: Seq<char>) -> Seq<char> {
    if key.len() <= 8 {
        stars(key.len() as int)
    } else {
        key.take(4) + "..."@ + key.skip(key.len() - 4)
    }
}

/// Masks an API key for safe logging: first and last four characters at
/// most, the rest hidden.
pub fn mask_api_key(key: &str) -> (r: String)
    ensures
        r@ == masked_key(key@),
{
    let n = key.unicode_len();
    if n <= 8 {
        let mut out = String::new();
        let mut i: usize = 0;
        proof {
            assert(out@ =~= stars(0));
        }
        while i < n
            invariant
                0 <= i <= n,
                out@ == stars(i as int),
            decreases n - i,
        {
            out.append("*");
            proof {
                reveal_strlit("*");
                assert(out@ =~= stars(i + 1));
            }
            i = i + 1;
        }
        out
    } else {
        let mut out = key.substring_char(0, 4).to_owned();
        out.append("...");
        out.append(key.substring_char(n - 4, n));
        proof {
            reveal_strlit("...");
            assert(out@ =~= masked_key(key@));
        }
        out
    }
}

/// Permission levels for bot commands.
#[derive(Clone, Copy, Debug, PartialEq, Eq, Structural)]
pub enum Permission {
    Admin,
    User,
    Denied,
}

impl Permission {
    /// Only an admin can manage other users.
    pub fn can_manage_users(&self) -> (r: bool)
        ensures
            r == (*self == Permission::Admin),
    {
        match self {
            Permission::Admin => true,
            _ => false,
        }
    }

    /// Admins and users can use the standard commands.
    pub fn can_use_commands(&self) -> (r: bool)
        ensures
            r == (*self == Permission::Admin || *self == Permission::User),
    {
        match self {
            Permission::Admin => true,
            Permission::User => true,
            Permission::Denied => false,
        }
    }
}

/// Whether any of the held role ids is in the configured set.
pub open spec fn any_role_in(held: Seq<u64>, configured: Seq<u64>) -> bool {
    exists|i: int| 0 <= i < held.len() && configured.contains(held[i])
}

/// Whether a vector of role ids contains one id.
fn roles_contain(roles: &Vec<u64>, id: u64) -> (r: bool)
    ensures
        r == roles@.contains(id),
{
    let mut i: usize = 0;
    while i < roles.len()
        invariant
            0 <= i <= roles@.len(),
            forall|j: int| 0 <= j < i ==> roles@[j] != id,
        decreases roles@.len() - i,
    {
        if roles[i] == id {
            return true;
        }
        i = i + 1;
    }
    false
}

/// Decides a caller's permission from their held role ids against the
/// configured admin and user role sets, admin winning.
pub fn get_permission(role_ids: &Vec<u64>, admin_role_ids: &Vec<u64>, user_role_ids: &Vec<u64>) -> (r:
    Permission)
    ensures
        r == Permission::Admin <==> any_role_in(role_ids@, admin_role_ids@),
        r == Permission::User <==> (!any_role_in(role_ids@, admin_role_ids@) && any_role_in(
            role_ids@,
            user_role_ids@,
        )),
{
    let mut i: usize = 0;
    while i < role_ids.len()
        invariant
            0 <= i <= role_ids@.len(),
            forall|j: int| 0 <= j < i ==> !admin_role_ids@.contains(#[trigger] role_ids@[j]),
        decreases role_ids@.len() - i,
    {
        if roles_contain(admin_role_ids, role_ids[i]) {
            return Permission::Admin;
        }
        i = i + 1;
    }
    let mut k: usize = 0;
    while k < role_ids.len()
        invariant
            0 <= k <= role_ids@.len(),
            !any_role_in(role_ids@, admin_role_ids@),
            forall|j: int| 0 <= j < k ==> !user_role_ids@.contains(#[trigger] role_ids@[j]),
        decreases role_ids@.len() - k,
    {
        if roles_contain(user_role_ids, role_ids[k]) {
            return Permission::User;
        }
        k = k + 1;
    }
    Permission::Denied
}

/// The bot can start only fully configured: a token, at least one admin
/// role, and both channels.
pub fn bot_enabled(cfg: &Config) -> (r: bool)
    ensures
        r == (cfg.bot_token is Some && cfg.bot_admin_role_ids@.len() > 0 && cfg.bot_spy_channel_id
            is Some && cfg.bot_channel_id is Some),
{
    cfg.bot_token.is_some() && cfg.bot_admin_role_ids.len() > 0 && cfg.bot_spy_channel_id.is_some()
        && cfg.bot_channel_id.is_some()
}

/// Only an admin passes; anyone else is forbidden.
pub fn require_admin(role: UserRole) -> (r: Result<(), AppError>)
    ensures
        role == UserRole::Admin <==> r is Ok,
        role != UserRole::Admin ==> (r matches Err(e) && e is Forbidden),
{
    match role {
        UserRole::Admin => Ok(()),
        UserRole::User => Err(AppError::Forbidden),
    }
}

/// The role a wire string denotes, if any.
pub open spec fn role_of(s: Seq<char>) -> Option<UserRole> {
    if s == "admin"@ {
        Some(UserRole::Admin)
    } else if s == "user"@ {
        Some(UserRole::User)
    } else {
        None
    }
}

/// Parses a role's wire spelling.
pub fn parse_role(s: &str) -> (r: Option<UserRole>)
    ensures
        r == role_of(s@),
{
    if crate::store::str_eq(s, "admin") {
        Some(UserRole::Admin)
    } else if crate::store::str_eq(s, "user") {
        Some(UserRole::User)
    } else {
        None
    }
}

/// Relies on uuid's `Uuid::new_v4` and its `Display` impl: a fresh
/// random credential in the hyphenated format, which is always 36 ASCII
/// characters.  The value is random: nothing else is promised.
#[verifier::external_body]
pub(crate) fn fresh_api_key() -> (r: String)
    ensures
        r@.len() == 36,
{
    uuid::Uuid::new_v4().to_string()
}

/// How many user rows hold the admin role.
pub open spec fn admin_count(users: Seq<UserModel>) -> int
    decreases users.len(),
{
    if users.len() == 0 {
        0
    } else {
        admin_count(users.drop_last()) + (if users.last().role == UserRole::Admin {
            1int
        } else {
            0int
        })
    }
}

/// Counts the admin users.
pub fn count_admins(store: &Store) -> (r: u64)
    requires
        store@.users.len() <= 0xffff_ffff_ffff_ffff,
    ensures
        r == admin_count(store@.users),
{
    let mut count: u64 = 0;
    let mut i: usize = 0;
    proof {
        assert(store@.users.take(0) =~= Seq::<UserModel>::empty());
    }
    while i < store.users.len()
        invariant
            0 <= i <= store@.users.len(),
            store@.users.len() == store.users@.len(),
            store@.users.len() <= 0xffff_ffff_ffff_ffff,
            count == admin_count(store@.users.take(i as int)),
            count <= i,
        decreases store@.users.len() - i,
    {
        proof {
            assert(store@.users.take(i + 1).drop_last() =~= store@.users.take(i as int));
            assert(store@.users.take(i + 1).last() == store@.users[i as int]);
        }
        if store.users[i].role == UserRole::Admin {
            count = count + 1;
        }
        i = i + 1;
    }
    proof {
        assert(store@.users.take(store@.users.len() as int) =~= store@.users);
    }
    count
}

/// Deletes a user on an admin's behalf.  Self-deletion is rejected as
/// bad input; an unknown id is not found; otherwise the row is removed.
pub fn admin_delete_user(store: &mut Store, caller_role: UserRole, caller_id: i64, user_id: i64) -> (r:
    Result<(), AppError>)
    requires
        old(store).wf(),
    ensures
        final(store).wf(),
        caller_role != UserRole::Admin ==> (r matches Err(e) && e is Forbidden) && final(store)@
            == old(store)@,
        caller_role == UserRole::Admin && user_id == caller_id ==> (r matches Err(e) && e
            is BadRequest) && final(store)@ == old(store)@,
        caller_role == UserRole::Admin && user_id != caller_id && !old(store)@.users_has(user_id)
            ==> (r matches Err(e) && e is NotFound) && final(store)@ == old(store)@,
        caller_role == UserRole::Admin && user_id != caller_id && old(store)@.users_has(user_id)
            ==> r is Ok && (exists|i: int|
            0 <= i < old(store)@.users.len() && old(store)@.users[i].id == user_id && final(store)@
                == (StoreModel { users: old(store)@.users.remove(i), ..old(store)@ })),
{
    if let Err(e) = require_admin(caller_role) {
        return Err(e);
    }
    if user_id == caller_id {
        return Err(AppError::BadRequest(String::from_str("Du kannst dich nicht selbst loeschen")));
    }
    if store.delete_user(user_id) {
        Ok(())
    } else {
        Err(AppError::NotFound(String::from_str("User nicht gefunden")))
    }
}

/// Updates a user's role on an admin's behalf.  An admin cannot demote
/// themselves while they are the last admin; an unknown role string is
/// bad input; an unknown user is not found.
pub fn admin_update_user_role(
    store: &mut Store,
    caller_role: UserRole,
    caller_id: i64,
    user_id: i64,
    role_str: &str,
    now: i64,
) -> (r: Result<(), AppError>)
    requires
        old(store).wf(),
        old(store)@.users.len() <= 0xffff_ffff_ffff_ffff,
    ensures
        final(store).wf(),
        r is Ok ==> role_of(role_str@) is Some && caller_role == UserRole::Admin && old(
            store,
        )@.users_has(user_id) && final(store)@ == (StoreModel {
            users: update_first(
                old(store)@.users,
                user_key(user_id),
                |u: UserModel| (UserModel { role: role_of(role_str@)->0, updated_at: now, ..u }),
            ),
            ..old(store)@
        }),
        caller_role != UserRole::Admin ==> (r matches Err(e) && e is Forbidden) && final(store)@
            == old(store)@,
        r is Err ==> final(store)@ == old(store)@,
{
    let ghost m0 = store@;
    if let Err(e) = require_admin(caller_role) {
        return Err(e);
    }
    let demoting_self = user_id == caller_id && !crate::store::str_eq(role_str, "admin");
    if demoting_self {
        let admins = count_admins(store);
        if admins <= 1 {
            return Err(
                AppError::BadRequest(
                    String::from_str(
                        "Du bist der letzte Admin und kannst dich nicht selbst herabstufen",
                    ),
                ),
            );
        }
    }
    let role = match parse_role(role_str) {
        Some(ro) => ro,
        None => {
            return Err(
                AppError::BadRequest(String::from_str("Ungueltige Rolle. Erlaubt: admin, user")),
            );
        },
    };
    if store.update_user_role(user_id, role, now) {
        Ok(())
    } else {
        proof {
            crate::rowseq::lemma_update_first_none(
                m0.users,
                user_key(user_id),
                |u: UserModel| (UserModel { role: role, updated_at: now, ..u }),
            );
            assert(store@ =~= m0);
        }
        Err(AppError::NotFound(String::from_str("User nicht gefunden")))
    }
}

/// Validates and applies a universe configuration update: galaxy count in
/// 1 to 20, system count in 1 to 999; a field left out is unchanged.
pub fn admin_update_config(
    store: &mut Store,
    caller_role: UserRole,
    galaxies: Option<i64>,
    systems: Option<i64>,
    galaxy_wrapped: Option<bool>,
) -> (r: Result<(), AppError>)
    requires
        old(store).wf(),
    ensures
        final(store).wf(),
        caller_role != UserRole::Admin ==> (r matches Err(e) && e is Forbidden) && final(store)@
            == old(store)@,
        caller_role == UserRole::Admin && (galaxies matches Some(g) && !(1 <= g <= 20)) ==> (r
            matches Err(e) && e is BadRequest) && final(store)@ == old(store)@,
        caller_role == UserRole::Admin && !(galaxies matches Some(g) && !(1 <= g <= 20)) && (
        systems matches Some(s) && !(1 <= s <= 999)) ==> (r matches Err(e) && e is BadRequest)
            && final(store)@ == old(store)@,
        r is Ok ==> caller_role == UserRole::Admin && final(store)@ == (StoreModel {
            config: crate::models::UniverseConfig {
                galaxies: (match galaxies {
                    Some(g) => g,
                    None => old(store)@.config.galaxies,
                }),
                systems: (match systems {
                    Some(s) => s,
                    None => old(store)@.config.systems,
                }),
                galaxy_wrapped: (match galaxy_wrapped {
                    Some(w) => w,
                    None => old(store)@.config.galaxy_wrapped,
                }),
            },
            ..old(store)@
        }),
{
    if let Err(e) = require_admin(caller_role) {
        return Err(e);
    }
    if let Some(g) = galaxies {
        if g < 1 || g > 20 {
            return Err(
                AppError::BadRequest(String::from_str("Galaxien muss zwischen 1 und 20 sein")),
            );
        }
    }
    if let Some(s) = systems {
        if s < 1 || s > 999 {
            return Err(
                AppError::BadRequest(String::from_str("Systeme muss zwischen 1 und 999 sein")),
            );
        }
    }
    let old_cfg = store.config;
    let cfg = crate::models::UniverseConfig {
        galaxies: (match galaxies {
            Some(g) => g,
            None => old_cfg.galaxies,
        }),
        systems: (match systems {
            Some(s) => s,
            None => old_cfg.systems,
        }),
        galaxy_wrapped: (match galaxy_wrapped {
            Some(w) => w,
            None => old_cfg.galaxy_wrapped,
        }),
    };
    store.set_universe_config(cfg);
    Ok(())
}

/// Creates a user for a named player on the bot's behalf: the player must
/// already exist (matched case-insensitively, as the store's lookups
/// match); their alliance, or the configured default, is linked; a fresh
/// random credential is issued and returned with the new user id.
pub fn bot_create_user(store: &mut Store, player_name: &str, default_ally_id: i64, now: i64) -> (r:
    Result<(i64, String), AppError>)
    requires
        old(store).wf(),
        old(store)@.next_user_id < 0x7fff_ffff_ffff_ffff,
    ensures
        final(store).wf(),
        r is Err ==> final(store)@ == old(store)@ && !(exists|i: int|
            0 <= i < old(store)@.players.len() && lower(#[trigger] old(store)@.players[i].name)
                == lower(player_name@)),
        r matches Ok((uid, key)) ==> uid == old(store)@.next_user_id && key@.len() == 36 && (exists|
            i: int|
            0 <= i < old(store)@.players.len() && lower(#[trigger] old(store)@.players[i].name)
                == lower(player_name@) && final(store)@ == (StoreModel {
                users: old(store)@.users.push(
                    UserModel {
                        id: uid,
                        api_key: key@,
                        player_id: Some(old(store)@.players[i].id),
                        alliance_id: Some(
                            (match old(store)@.players[i].alliance_id {
                                Some(a) => a,
                                None => default_ally_id,
                            }),
                        ),
                        language: "en"@,
                        role: crate::models::UserRole::User,
                        last_activity_at: None,
                        created_at: now,
                        updated_at: now,
                    },
                ),
                next_user_id: (old(store)@.next_user_id + 1) as i64,
                ..old(store)@
            })),
{
    let idx = match find_player_by_name(store, player_name) {
        Some(i) => i,
        None => {
            return Err(AppError::NotFound(String::from_str("Spieler nicht gefunden")));
        },
    };
    let player_id = store.players[idx].id;
    let ally = match store.players[idx].alliance_id {
        Some(a) => a,
        None => default_ally_id,
    };
    let key = fresh_api_key();
    let returned = key.clone();
    let uid = store.create_user(
        key,
        Some(player_id),
        Some(ally),
        String::from_str("en"),
        crate::models::UserRole::User,
        now,
    );
    Ok((uid, returned))
}

/// The ASCII-lowercase image of a character.
pub open spec fn lower_char(c: char) -> char {
    if 'A' <= c && c <= 'Z' {
        ((c as u8) + 32) as char
    } else {
        c
    }
}

/// The ASCII-lowercase image of a text, as the store's case-insensitive
/// lookups fold case.
pub open spec fn lower(s: Seq<char>) -> Seq<char> {
    s.map_values(|c: char| lower_char(c))
}

/// Compares two texts ASCII-case-insensitively.
pub fn eq_ignore_ascii(a: &str, b: &str) -> (r: bool)
    ensures
        r == (lower(a@) == lower(b@)),
{
    let la = a.unicode_len();
    let lb = b.unicode_len();
    if la != lb {
        proof {
            assert(lower(a@).len() == a@.len());
            assert(lower(b@).len() == b@.len());
        }
        return false;
    }
    let mut i: usize = 0;
    while i < la
        invariant
            la == a@.len(),
            la == b@.len(),
            0 <= i <= la,
            forall|j: int| 0 <= j < i ==> lower(a@)[j] == lower(b@)[j],
        decreases la - i,
    {
        let ca = a.get_char(i);
        let cb = b.get_char(i);
        let fa = if 'A' <= ca && ca <= 'Z' {
            (((ca as u32) as u8) + 32) as char
        } else {
            ca
        };
        let fb = if 'A' <= cb && cb <= 'Z' {
            (((cb as u32) as u8) + 32) as char
        } else {
            cb
        };
        if fa != fb {
            proof {
                assert(lower(a@)[i as int] == lower_char(a@[i as int]));
                assert(lower(b@)[i as int] == lower_char(b@[i as int]));
            }
            return false;
        }
        i = i + 1;
    }
    proof {
        assert(lower(a@) =~= lower(b@));
    }
    true
}

/// Index of the first player whose name matches case-insensitively.
pub fn find_player_by_name(store: &Store, name: &str) -> (r: Option<usize>)
    ensures
        (match r {
            Some(i) => i < store@.players.len() && lower(store@.players[i as int].name) == lower(
                name@,
            ) && (forall|j: int|
                0 <= j < i ==> lower(#[trigger] store@.players[j].name) != lower(name@)),
            None => forall|j: int|
                0 <= j < store@.players.len() ==> lower(#[trigger] store@.players[j].name)
                    != lower(name@),
        }),
{
    let mut i: usize = 0;
    while i < store.players.len()
        invariant
            0 <= i <= store@.players.len(),
            store@.players.len() == store.players@.len(),
            forall|j: int| 0 <= j < i ==> lower(#[trigger] store@.players[j].name) != lower(name@),
        decreases store@.players.len() - i,
    {
        if eq_ignore_ascii(store.players[i].name.as_str(), name) {
            proof {
                assert(store@.players[i as int].name == store.players@[i as int].name@);
            }
            return Some(i);
        }
        i = i + 1;
    }
    None
}

} // verus!
