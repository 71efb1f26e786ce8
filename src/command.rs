use vstd::prelude::*;

use crate::database::Database;
use crate::expr::{eval, resolve_set, ResolveError, SetExpr};
use crate::idset::{views, IdSet};
use crate::parser::{parse_complete, read_whole, SyntaxError, SyntaxFailure};
use crate::registry::RegistryMap;
use crate::text::{chars_of, has_at, run_len, run_length, word_at, CharClass};

verus! {

pub open spec fn grant_word() -> Seq<char> {
    seq!['G', 'R', 'A', 'N', 'T']
}

pub open spec fn on_word() -> Seq<char> {
    seq![' ', 'O', 'N', ' ']
}

pub open spec fn to_word() -> Seq<char> {
    seq![' ', 'T', 'O', ' ']
}

/// The first position at or after `i` where `w` stands in `s`.
pub open spec fn find_from(s: Seq<char>, w: Seq<char>, i: int) -> Option<int>
    decreases s.len() - i,
{
    if i < 0 || i >= s.len() || i + w.len() > s.len() {
        None
    } else if has_at(s, i, w) {
        Some(i)
    } else {
        find_from(s, w, i + 1)
    }
}

/// A position that `find_from` gives is at or after the start and holds the word.
pub proof fn lemma_find_from(s: Seq<char>, w: Seq<char>, i: int)
    ensures
        match find_from(s, w, i) {
            Some(t) => i <= t && has_at(s, t, w),
            None => true,
        },
    decreases s.len() - i,
{
    if !(i < 0 || i >= s.len() || i + w.len() > s.len()) && !has_at(s, i, w) {
        lemma_find_from(s, w, i + 1);
    }
}

/// The operation prefix `"GRANT" space+ letters+ " ON "`: the permission name and the
/// position where the rest of the command starts.
pub open spec fn operation_at(s: Seq<char>) -> Option<(Seq<char>, int)> {
    let w: int = run_len(s, 5, CharClass::Space) as int;
    let a: int = run_len(s, 5 + w, CharClass::Alpha) as int;
    if has_at(s, 0, grant_word()) && w > 0 && a > 0 && has_at(s, 5 + w + a, on_word()) {
        Some((s.subrange(5 + w, 5 + w + a), 5 + w + a + 4))
    } else {
        None
    }
}

/// A grant command split into its permission name, asset-side text and user-side text;
/// the sides are parted at the first `" TO "`.
pub open spec fn command_parts(s: Seq<char>) -> Option<(Seq<char>, Seq<char>, Seq<char>)> {
    match operation_at(s) {
        None => None,
        Some((perm, r0)) => match find_from(s, to_word(), r0) {
            None => None,
            Some(t) => Some((perm, s.subrange(r0, t), s.subrange(t + 4, s.len() as int))),
        },
    }
}

/// The operation a command requests.
#[derive(Debug, Clone, PartialEq, Eq)]
pub enum DatabaseOperationType {
    Grant(String),
}

/// Which of the two expressions of a command an error concerns.
#[derive(Debug, Clone, Copy, PartialEq, Eq)]
pub enum Side {
    Asset,
    User,
}

/// Why a grant command was refused.
#[derive(Debug, Clone, PartialEq, Eq)]
pub enum CommandError {
    /// The text is not of the form `GRANT <permission> ON <expr> TO <expr>`.
    CommandSyntax(String),
    /// The permission is not in the allow-list.
    InvalidPermission(String),
    /// One side's expression text is malformed.
    Syntax(Side, SyntaxError),
    /// One side's expression names a label that its registry lacks.
    UnknownLabel(Side, String),
}

/// Details kept beside a resolved command.
#[derive(Debug, Clone)]
pub struct CommandParseResultMetadata {}

impl CommandParseResultMetadata {
    pub fn new() -> CommandParseResultMetadata {
        CommandParseResultMetadata {  }
    }
}

/// A grant command, validated and resolved.
#[derive(Debug, Clone)]
pub struct CommandParseResult {
    pub command_raw: String,
    pub database_operation: DatabaseOperationType,
    pub asset_set_affected: IdSet,
    pub user_set_affected: IdSet,
    pub metadata: CommandParseResultMetadata,
}

/// The outcome of a grant command, in mathematical form.
pub enum GrantOutcome {
    Granted(Seq<char>, Set<Seq<char>>, Set<Seq<char>>),
    CommandSyntax,
    InvalidPermission(Seq<char>),
    SyntaxFailed(Side, SyntaxFailure),
    UnknownLabel(Side, Seq<char>),
}

/// What a grant command resolves to: the command is split, its permission checked
/// against `allowed`, both expressions read, then both evaluated, asset side first.
pub open spec fn grant_outcome(
    s: Seq<char>,
    assets: RegistryMap,
    users: RegistryMap,
    allowed: Seq<Seq<char>>,
) -> GrantOutcome {
    match command_parts(s) {
        None => GrantOutcome::CommandSyntax,
        Some((perm, at, ut)) => if !allowed.contains(perm) {
            GrantOutcome::InvalidPermission(perm)
        } else {
            match read_whole(at) {
                Err(f) => GrantOutcome::SyntaxFailed(Side::Asset, f),
                Ok(ta) => match read_whole(ut) {
                    Err(f) => GrantOutcome::SyntaxFailed(Side::User, f),
                    Ok(tu) => match eval(ta, assets) {
                        Err(l) => GrantOutcome::UnknownLabel(Side::Asset, l),
                        Ok(x) => match eval(tu, users) {
                            Err(l) => GrantOutcome::UnknownLabel(Side::User, l),
                            Ok(y) => GrantOutcome::Granted(perm, x, y),
                        },
                    },
                },
            }
        },
    }
}

/// Whether an executable result of the command `s` agrees with outcome `o`.
pub open spec fn grant_agrees(r: Result<CommandParseResult, CommandError>, s: Seq<char>, o: GrantOutcome) -> bool {
    match (r, o) {
        (Ok(c), GrantOutcome::Granted(perm, x, y)) => {
            &&& c.command_raw@ == s
            &&& c.database_operation matches DatabaseOperationType::Grant(p) && p@ == perm
            &&& c.asset_set_affected.wf() && c.asset_set_affected@ == x
            &&& c.user_set_affected.wf() && c.user_set_affected@ == y
        },
        (Err(CommandError::CommandSyntax(t)), GrantOutcome::CommandSyntax) => t@ == s,
        (Err(CommandError::InvalidPermission(p)), GrantOutcome::InvalidPermission(q)) => p@ == q,
        (Err(CommandError::Syntax(side, e)), GrantOutcome::SyntaxFailed(side2, f)) => side == side2
            && e@ == f,
        (Err(CommandError::UnknownLabel(side, l)), GrantOutcome::UnknownLabel(side2, m)) => side
            == side2 && l@ == m,
        _ => false,
    }
}

/// Reads `"GRANT" space+ letters+ " ON "` from the start of `input`: the text after it and
/// the requested operation.
pub fn parse_operation(input: &str) -> (r: Result<(&str, DatabaseOperationType), CommandError>)
    ensures
        match operation_at(input@) {
            Some((perm, r0)) => match r {
                Ok((rest, DatabaseOperationType::Grant(p))) => p@ == perm && rest@
                    == input@.subrange(r0, input@.len() as int),
                Err(_) => false,
            },
            None => match r {
                Err(CommandError::CommandSyntax(t)) => t@ == input@,
                _ => false,
            },
        },
{
    let s = chars_of(input);
    let span = operation_span(&s);
    if span.0 {
        let start = span.1;
        let end = span.2;
        let perm = input.substring_char(start, end).to_owned();
        Ok((input.substring_char(end + 4, s.len()), DatabaseOperationType::Grant(perm)))
    } else {
        Err(CommandError::CommandSyntax(input.to_owned()))
    }
}

/// Where the permission name of the operation prefix starts and ends.
fn operation_span(s: &Vec<char>) -> (r: (bool, usize, usize))
    ensures
        match operation_at(s@) {
            Some((perm, r0)) => r.0 && r.1 <= r.2 && r.2 + 4 <= s@.len() && perm == s@.subrange(
                r.1 as int,
                r.2 as int,
            ) && r0 == r.2 + 4,
            None => !r.0,
        },
{
    let grant = chars_of("GRANT");
    let on = chars_of(" ON ");
    proof {
        reveal_strlit("GRANT");
        reveal_strlit(" ON ");
    }
    assert(grant@ =~= grant_word());
    assert(on@ =~= on_word());
    if !word_at(s, 0, &grant) {
        return (false, 0, 0);
    }
    let n = s.len();
    assert(n >= 5);
    let w = run_length(s, 5, CharClass::Space);
    let a = run_length(s, 5 + w, CharClass::Alpha);
    if w > 0 && a > 0 && word_at(s, 5 + w + a, &on) {
        (true, 5 + w, 5 + w + a)
    } else {
        (false, 0, 0)
    }
}

/// The first position at or after `i` where `w` stands in `s`.
fn find_word(s: &Vec<char>, w: &Vec<char>, i: usize) -> (r: Option<usize>)
    requires
        w@.len() > 0,
    ensures
        match find_from(s@, w@, i as int) {
            Some(t) => r == Some(t as usize),
            None => r is None,
        },
{
    let mut j: usize = i;
    while j < s.len()
        invariant
            i <= j,
            w@.len() > 0,
            find_from(s@, w@, i as int) == find_from(s@, w@, j as int),
        decreases s@.len() - j,
    {
        if w.len() > s.len() - j {
            return None;
        }
        if word_at(s, j, w) {
            return Some(j);
        }
        j = j + 1;
    }
    None
}

/// Splits a grant command into its permission name, asset-side text and user-side text.
pub fn parse_command(input: &str) -> (r: Result<(String, &str, &str), CommandError>)
    ensures
        match command_parts(input@) {
            Some((perm, at, ut)) => match r {
                Ok((p, a, u)) => p@ == perm && a@ == at && u@ == ut,
                Err(_) => false,
            },
            None => match r {
                Err(CommandError::CommandSyntax(t)) => t@ == input@,
                _ => false,
            },
        },
{
    let s = chars_of(input);
    let span = operation_span(&s);
    if !span.0 {
        return Err(CommandError::CommandSyntax(input.to_owned()));
    }
    let n = s.len();
    let start = span.1;
    let end = span.2;
    assert(end + 4 <= n);
    let to = chars_of(" TO ");
    proof {
        reveal_strlit(" TO ");
    }
    assert(to@ =~= to_word());
    match find_word(&s, &to, end + 4) {
        None => Err(CommandError::CommandSyntax(input.to_owned())),
        Some(t) => {
            proof {
                lemma_find_from(s@, to@, end + 4);
                assert(find_from(s@, to@, end + 4) == Some(t as int));
                assert(to@.len() == 4);
                assert(end + 4 <= t);
            }
            let perm = input.substring_char(start, end).to_owned();
            Ok((perm, input.substring_char(end + 4, t), input.substring_char(t + 4, s.len())))
        },
    }
}

/// Splits a grant command and reads both of its expressions.
pub fn parse_command_to_expr(input: &str) -> (r: Result<(DatabaseOperationType, SetExpr, SetExpr), CommandError>)
    ensures
        match command_parts(input@) {
            None => match r {
                Err(CommandError::CommandSyntax(t)) => t@ == input@,
                _ => false,
            },
            Some((perm, at, ut)) => match (read_whole(at), read_whole(ut)) {
                (Ok(ta), Ok(tu)) => match r {
                    Ok((DatabaseOperationType::Grant(p), a, u)) => p@ == perm && a@ == ta && u@ == tu,
                    _ => false,
                },
                (Err(f), _) => match r {
                    Err(CommandError::Syntax(Side::Asset, e)) => e@ == f,
                    _ => false,
                },
                (Ok(_), Err(f)) => match r {
                    Err(CommandError::Syntax(Side::User, e)) => e@ == f,
                    _ => false,
                },
            },
        },
{
    let (perm, asset_text, user_text) = parse_command(input)?;
    let a = match parse_complete(asset_text) {
        Ok(e) => e,
        Err(e) => {
            return Err(CommandError::Syntax(Side::Asset, e));
        },
    };
    let u = match parse_complete(user_text) {
        Ok(e) => e,
        Err(e) => {
            return Err(CommandError::Syntax(Side::User, e));
        },
    };
    Ok((DatabaseOperationType::Grant(perm), a, u))
}

/// Whether `x` is one of `v`.
pub fn contains_string(v: &Vec<String>, x: &String) -> (r: bool)
    ensures
        r == views(v@).contains(x@),
{
    let mut i: usize = 0;
    while i < v.len()
        invariant
            i <= v@.len(),
            forall|j: int| 0 <= j < i ==> v@[j]@ != x@,
        decreases v@.len() - i,
    {
        if v[i] == *x {
            assert(views(v@)[i as int] == x@);
            return true;
        }
        i = i + 1;
    }
    proof {
        if views(v@).contains(x@) {
            let j = choose|j: int| 0 <= j < views(v@).len() && views(v@)[j] == x@;
            assert(v@[j]@ == x@);
        }
    }
    false
}

impl Database {
    /// Resolves a grant command: splits it, checks the permission before anything else
    /// is read, reads both expressions, then evaluates the asset side against the asset
    /// registry and the user side against the user registry.
    pub fn resolve_command(&self, input: &str) -> (r: Result<CommandParseResult, CommandError>)
        requires
            self.wf(),
        ensures
            grant_agrees(
                r,
                input@,
                grant_outcome(
                    input@,
                    self.asset_registry.data@,
                    self.user_registry.data@,
                    views(self.valid_permissions@),
                ),
            ),
    {
        let (permission, asset_text, user_text) = parse_command(input)?;
        if !contains_string(&self.valid_permissions, &permission) {
            return Err(CommandError::InvalidPermission(permission));
        }
        let asset_expr = match parse_complete(asset_text) {
            Ok(e) => e,
            Err(e) => {
                return Err(CommandError::Syntax(Side::Asset, e));
            },
        };
        let user_expr = match parse_complete(user_text) {
            Ok(e) => e,
            Err(e) => {
                return Err(CommandError::Syntax(Side::User, e));
            },
        };
        let asset_set_affected = match resolve_set(asset_expr, &self.asset_registry.data) {
            Ok(x) => x,
            Err(ResolveError::UnknownLabel(l)) => {
                return Err(CommandError::UnknownLabel(Side::Asset, l));
            },
        };
        let user_set_affected = match resolve_set(user_expr, &self.user_registry.data) {
            Ok(x) => x,
            Err(ResolveError::UnknownLabel(l)) => {
                return Err(CommandError::UnknownLabel(Side::User, l));
            },
        };
        Ok(
            CommandParseResult {
                command_raw: input.to_owned(),
                database_operation: DatabaseOperationType::Grant(permission),
                asset_set_affected,
                user_set_affected,
                metadata: CommandParseResultMetadata::new(),
            },
        )
    }
}

/// A permission outside the allow-list is refused whatever the registries hold: the
/// outcome is the same over any two pairs of registries.
pub proof fn lemma_permission_checked_first(
    s: Seq<char>,
    assets: RegistryMap,
    users: RegistryMap,
    other_assets: RegistryMap,
    other_users: RegistryMap,
    allowed: Seq<Seq<char>>,
)
    requires
        match command_parts(s) {
            Some((perm, _, _)) => !allowed.contains(perm),
            None => false,
        },
    ensures
        match command_parts(s) {
            Some((perm, _, _)) => grant_outcome(s, assets, users, allowed)
                == GrantOutcome::InvalidPermission(perm),
            None => false,
        },
        grant_outcome(s, assets, users, allowed) == grant_outcome(
            s,
            other_assets,
            other_users,
            allowed,
        ),
{
}

} // verus!
