//! Merging per-server results into one ordered view: failsafe absorption,
//! the presentation order, and the column widths of the final table.
use vstd::prelude::*;

use crate::collection::SessionCollection;
use crate::error::{WhereError, WhereResult};
use crate::session::{views_of, Session, SessionView};

verus! {

broadcast use vstd::seq_lib::group_to_multiset_ensures;

/// Folds one server's outcome into the running merged list. Sessions of a
/// successful query are appended in order. A failed query is absorbed as
/// empty when `failsafe` is set for that server; otherwise its error ends
/// the whole aggregation.
pub fn absorb_result(
    merged: &mut Vec<Session>,
    result: Result<SessionCollection, WhereError>,
    failsafe: bool,
) -> (r: WhereResult<()>)
    ensures
        match result {
            Ok(c) => r is Ok && views_of(final(merged)@) == views_of(old(merged)@) + c@,
            Err(e) => {
                &&& final(merged)@ == old(merged)@
                &&& if failsafe {
                    r is Ok
                } else {
                    r == Err::<(), WhereError>(e)
                }
            },
        },
{
    match result {
        Ok(c) => {
            let mut v = c.into_vec();
            let ghost pre = merged@;
            let ghost vv = v@;
            merged.append(&mut v);
            proof {
                assert(views_of(merged@) =~= views_of(pre) + views_of(vv));
            }
            Ok(())
        },
        Err(e) => {
            if failsafe {
                Ok(())
            } else {
                Err(e)
            }
        },
    }
}

/// The presentation order: active sessions come before inactive ones, and
/// within one activity group earlier logins come first.
pub open spec fn before(a: SessionView, b: SessionView) -> bool {
    (a.active && !b.active) || (a.active == b.active && a.login_time <= b.login_time)
}

/// Every pair of positions observes the presentation order.
pub open spec fn sorted_sessions(ss: Seq<SessionView>) -> bool {
    forall|i: int, j: int| 0 <= i < j < ss.len() ==> #[trigger] before(ss[i], ss[j])
}

/// Exec counterpart of `before`.
fn comes_before(a: &Session, b: &Session) -> (r: bool)
    ensures
        r == before(a@, b@),
{
    (a.active && !b.active) || (a.active == b.active && a.login_time <= b.login_time)
}

/// Reorders the merged list into the presentation order, keeping exactly
/// the same sessions: active group first, ascending login time within
/// each group.
pub fn sort_sessions(sessions: &mut Vec<Session>)
    ensures
        views_of(final(sessions)@).to_multiset() == views_of(old(sessions)@).to_multiset(),
        sorted_sessions(views_of(final(sessions)@)),
{
    let mut out: Vec<Session> = Vec::new();
    proof {
        assert(views_of(out@) =~= Seq::<SessionView>::empty());
        assert(views_of(out@).to_multiset().add(views_of(sessions@).to_multiset()) =~= views_of(
            sessions@,
        ).to_multiset());
    }
    while sessions.len() > 0
        invariant
            views_of(out@).to_multiset().add(views_of(sessions@).to_multiset()) == views_of(
                old(sessions)@,
            ).to_multiset(),
            sorted_sessions(views_of(out@)),
        decreases sessions@.len(),
    {
        let ghost pre_rest = sessions@;
        let ghost pre_out = out@;
        let s = sessions.remove(0);
        let mut idx: usize = 0;
        while idx < out.len() && comes_before(&out[idx], &s)
            invariant
                idx <= out@.len(),
                forall|j: int| 0 <= j < idx ==> before(#[trigger] views_of(out@)[j], s@),
            decreases out@.len() - idx,
        {
            idx += 1;
        }
        proof {
            // the found position splits `out`: everything before it goes
            // ahead of `s`, and `s` goes ahead of everything from it on
            assert forall|k: int| idx <= k < out@.len() implies before(
                s@,
                #[trigger] views_of(out@)[k],
            ) by {
                assert(!before(views_of(out@)[idx as int], s@));
                assert(before(s@, views_of(out@)[idx as int]));
                if k > idx {
                    assert(before(views_of(out@)[idx as int], views_of(out@)[k]));
                }
            }
            assert(views_of(out@.insert(idx as int, s)) =~= views_of(out@).insert(
                idx as int,
                s@,
            ));
            assert(views_of(pre_rest.remove(0)) =~= views_of(pre_rest).remove(0));
            assert(views_of(pre_rest).contains(views_of(pre_rest)[0]));
        }
        out.insert(idx, s);
        proof {
            let x = s@;
            let a = views_of(pre_out);
            let b = views_of(pre_rest);
            assert(views_of(out@).to_multiset() == a.to_multiset().insert(x));
            assert(b[0] == x);
            assert(b.to_multiset().count(x) >= 1);
            assert(views_of(sessions@).to_multiset() == b.to_multiset().remove(x));
            assert(a.to_multiset().insert(x).add(b.to_multiset().remove(x)) =~= a.to_multiset()
                .add(b.to_multiset()));
            assert forall|i: int, j: int|
                0 <= i < j < views_of(out@).len() implies #[trigger] before(
                views_of(out@)[i],
                views_of(out@)[j],
            ) by {
                let nv = views_of(out@);
                assert(nv == views_of(pre_out).insert(idx as int, x));
            }
        }
    }
    proof {
        assert(views_of(sessions@) =~= Seq::<SessionView>::empty());
        assert(views_of(out@).to_multiset().add(views_of(sessions@).to_multiset()) =~= views_of(
            out@,
        ).to_multiset());
    }
    *sessions = out;
}

/// The sessions kept in the active group alone.
pub open spec fn active_only(ss: Seq<SessionView>) -> Seq<SessionView> {
    ss.filter(|s: SessionView| s.active)
}

/// The sessions shown to the operator: all of them, or only the live ones
/// when dead accounting entries are excluded; order is kept either way.
pub fn visible_sessions(sessions: Vec<Session>, include_inactive: bool) -> (r: Vec<Session>)
    ensures
        include_inactive ==> r@ == sessions@,
        !include_inactive ==> views_of(r@) == active_only(views_of(sessions@)),
{
    if include_inactive {
        return sessions;
    }
    broadcast use vstd::seq_lib::group_seq_lib_default;

    let n = sessions.len();
    let mut out: Vec<Session> = Vec::new();
    let mut i: usize = 0;
    proof {
        assert(views_of(out@) =~= Seq::<SessionView>::empty());
        assert(views_of(sessions@.take(0)) =~= Seq::<SessionView>::empty());
        reveal_with_fuel(Seq::<SessionView>::filter, 2);
    }
    while i < n
        invariant
            i <= n,
            n == sessions@.len(),
            views_of(out@) == active_only(views_of(sessions@.take(i as int))),
        decreases n - i,
    {
        let ghost pre_out = out@;
        proof {
            reveal_with_fuel(Seq::<SessionView>::filter, 2);
            assert(views_of(sessions@.take(i as int + 1)) =~= views_of(
                sessions@.take(i as int),
            ) + seq![sessions@[i as int]@]);
            let single = seq![sessions@[i as int]@];
            assert(single.drop_last() =~= Seq::<SessionView>::empty());
            assert(active_only(views_of(sessions@.take(i as int + 1))) == active_only(
                views_of(sessions@.take(i as int)),
            ) + active_only(single));
        }
        if sessions[i].active {
            let s = Session {
                host: clone_opt_bytes(&sessions[i].host),
                user: clone_bytes(&sessions[i].user),
                pid: sessions[i].pid,
                tty: clone_bytes(&sessions[i].tty),
                remote: clone_opt_bytes(&sessions[i].remote),
                active: sessions[i].active,
                login_time: sessions[i].login_time,
            };
            proof {
                assert(s@ == sessions@[i as int]@);
            }
            out.push(s);
            proof {
                assert(views_of(out@) =~= views_of(pre_out) + seq![sessions@[i as int]@]);
            }
        }
        i += 1;
    }
    proof {
        assert(sessions@.take(n as int) =~= sessions@);
    }
    out
}

/// Decimal digit count of a value, at least one.
pub open spec fn spec_digit_count(n: int) -> nat
    decreases n,
{
    if n < 10 {
        1
    } else {
        1 + spec_digit_count(n / 10)
    }
}

/// Printed width of a process identifier: the digits of its magnitude,
/// plus one for the sign when it is negative.
pub open spec fn spec_pid_width(pid: i32) -> nat {
    if pid < 0 {
        1 + spec_digit_count(-(pid as int))
    } else {
        spec_digit_count(pid as int)
    }
}

/// Digit count of a magnitude no larger than an i32's can be.
fn magnitude_digits(m: u64) -> (r: usize)
    requires
        m <= 2147483648,
    ensures
        r == spec_digit_count(m as int),
        r <= 10,
{
    proof {
        reveal_with_fuel(spec_digit_count, 11);
    }
    if m >= 1000000000 {
        10
    } else if m >= 100000000 {
        9
    } else if m >= 10000000 {
        8
    } else if m >= 1000000 {
        7
    } else if m >= 100000 {
        6
    } else if m >= 10000 {
        5
    } else if m >= 1000 {
        4
    } else if m >= 100 {
        3
    } else if m >= 10 {
        2
    } else {
        1
    }
}

/// Exec counterpart of `spec_pid_width`.
pub fn pid_width(pid: i32) -> (r: usize)
    ensures
        r == spec_pid_width(pid),
        r <= 11,
{
    if pid < 0 {
        let m = (-(pid as i64)) as u64;
        1 + magnitude_digits(m)
    } else {
        magnitude_digits(pid as u64)
    }
}

/// Byte length of the host label, zero when there is none.
pub open spec fn host_len(s: SessionView) -> int {
    match s.host {
        Some(h) => h.len() as int,
        None => 0,
    }
}

/// Byte length of the remote origin, zero when the session is local.
pub open spec fn remote_len(s: SessionView) -> int {
    match s.remote {
        Some(r) => r.len() as int,
        None => 0,
    }
}

/// Width of each table column: the widest value observed in the merged
/// list, floored at the fixed minimum that keeps the header readable.
pub struct ColumnWidths {
    pub host: usize,
    pub remote: usize,
    pub user: usize,
    pub tty: usize,
    pub pid: usize,
}

/// Measures the merged list. Each width is the exact maximum of its
/// column's values, floored at the column's minimum.
pub fn column_widths(sessions: &Vec<Session>) -> (r: ColumnWidths)
    ensures
        r.host >= 5 && r.remote >= 7 && r.user >= 5 && r.tty >= 4 && r.pid >= 4,
        forall|i: int|
            0 <= i < sessions@.len() ==> host_len(#[trigger] views_of(sessions@)[i])
                <= r.host as int,
        r.host == 5 || exists|i: int|
            0 <= i < sessions@.len() && host_len(#[trigger] views_of(sessions@)[i])
                == r.host as int,
        forall|i: int|
            0 <= i < sessions@.len() ==> remote_len(#[trigger] views_of(sessions@)[i])
                <= r.remote as int,
        r.remote == 7 || exists|i: int|
            0 <= i < sessions@.len() && remote_len(#[trigger] views_of(sessions@)[i])
                == r.remote as int,
        forall|i: int|
            0 <= i < sessions@.len() ==> (#[trigger] views_of(sessions@)[i]).user.len()
                <= r.user as int,
        r.user == 5 || exists|i: int|
            0 <= i < sessions@.len() && (#[trigger] views_of(sessions@)[i]).user.len()
                == r.user as int,
        forall|i: int|
            0 <= i < sessions@.len() ==> (#[trigger] views_of(sessions@)[i]).tty.len()
                <= r.tty as int,
        r.tty == 4 || exists|i: int|
            0 <= i < sessions@.len() && (#[trigger] views_of(sessions@)[i]).tty.len()
                == r.tty as int,
        forall|i: int|
            0 <= i < sessions@.len() ==> spec_pid_width(
                (#[trigger] views_of(sessions@)[i]).pid,
            ) <= r.pid as int,
        r.pid == 4 || exists|i: int|
            0 <= i < sessions@.len() && spec_pid_width(
                (#[trigger] views_of(sessions@)[i]).pid,
            ) == r.pid as int,
{
    let n = sessions.len();
    let mut host_w: usize = 5;
    let mut remote_w: usize = 7;
    let mut user_w: usize = 5;
    let mut tty_w: usize = 4;
    let mut pid_w: usize = 4;
    let mut i: usize = 0;
    while i < n
        invariant
            i <= n,
            n == sessions@.len(),
            host_w >= 5 && remote_w >= 7 && user_w >= 5 && tty_w >= 4 && pid_w >= 4,
            forall|j: int|
                0 <= j < i ==> host_len(#[trigger] views_of(sessions@)[j]) <= host_w as int,
            host_w == 5 || exists|j: int|
                0 <= j < i && host_len(#[trigger] views_of(sessions@)[j]) == host_w as int,
            forall|j: int|
                0 <= j < i ==> remote_len(#[trigger] views_of(sessions@)[j]) <= remote_w as int,
            remote_w == 7 || exists|j: int|
                0 <= j < i && remote_len(#[trigger] views_of(sessions@)[j]) == remote_w as int,
            forall|j: int|
                0 <= j < i ==> (#[trigger] views_of(sessions@)[j]).user.len() <= user_w as int,
            user_w == 5 || exists|j: int|
                0 <= j < i && (#[trigger] views_of(sessions@)[j]).user.len() == user_w as int,
            forall|j: int|
                0 <= j < i ==> (#[trigger] views_of(sessions@)[j]).tty.len() <= tty_w as int,
            tty_w == 4 || exists|j: int|
                0 <= j < i && (#[trigger] views_of(sessions@)[j]).tty.len() == tty_w as int,
            forall|j: int|
                0 <= j < i ==> spec_pid_width((#[trigger] views_of(sessions@)[j]).pid)
                    <= pid_w as int,
            pid_w == 4 || exists|j: int|
                0 <= j < i && spec_pid_width((#[trigger] views_of(sessions@)[j]).pid)
                    == pid_w as int,
        decreases n - i,
    {
        proof {
            assert(views_of(sessions@)[i as int] == sessions@[i as int]@);
        }
        let hl: usize = match &sessions[i].host {
            Some(h) => h.len(),
            None => 0,
        };
        if hl > host_w {
            host_w = hl;
        }
        let rl: usize = match &sessions[i].remote {
            Some(rr) => rr.len(),
            None => 0,
        };
        if rl > remote_w {
            remote_w = rl;
        }
        let ul = sessions[i].user.len();
        if ul > user_w {
            user_w = ul;
        }
        let tl = sessions[i].tty.len();
        if tl > tty_w {
            tty_w = tl;
        }
        let pw = pid_width(sessions[i].pid);
        if pw > pid_w {
            pid_w = pw;
        }
        i += 1;
    }
    ColumnWidths { host: host_w, remote: remote_w, user: user_w, tty: tty_w, pid: pid_w }
}

/// A byte string copied field for field.
fn clone_bytes(v: &Vec<u8>) -> (r: Vec<u8>)
    ensures
        r@ == v@,
{
    let mut out: Vec<u8> = Vec::new();
    let mut i: usize = 0;
    while i < v.len()
        invariant
            i <= v@.len(),
            out@ == v@.take(i as int),
        decreases v@.len() - i,
    {
        out.push(v[i]);
        proof {
            assert(v@.take(i as int).push(v@[i as int]) =~= v@.take(i as int + 1));
        }
        i += 1;
    }
    proof {
        assert(v@.take(v@.len() as int) =~= v@);
    }
    out
}

/// An optional byte string copied field for field.
fn clone_opt_bytes(v: &Option<Vec<u8>>) -> (r: Option<Vec<u8>>)
    ensures
        (match v {
            Some(b) => r matches Some(rb) && rb@ == b@,
            None => r is None,
        }),
{
    match v {
        Some(b) => Some(clone_bytes(b)),
        None => None,
    }
}

} // verus!
