//! The table of collected answers that `/export_csv` sends: a header row
//! with the survey parameters, then one row per user whose data reads.
use vstd::prelude::*;

use crate::survey::{params_view, Param, ParamView, UserData, UserDataView};
use crate::text::strings_view;

verus! {

/// The cell for column `header`: the value of the first collected parameter
/// with that name, empty when it has none or there is no such parameter.
pub open spec fn cell(params: Seq<ParamView>, header: Seq<char>) -> Seq<char>
    decreases params.len(),
{
    if params.len() == 0 {
        Seq::empty()
    } else if params[0].name == header {
        match params[0].value {
            Some(v) => v,
            None => Seq::empty(),
        }
    } else {
        cell(params.drop_first(), header)
    }
}

/// The row of one user.
pub open spec fn user_row(headers: Seq<Seq<char>>, d: UserDataView) -> Seq<Seq<char>> {
    Seq::new(headers.len(), |j: int| cell(d.params, headers[j]))
}

/// The users whose stored data reads, in order.
pub open spec fn readable(stored: Seq<Option<UserDataView>>) -> Seq<UserDataView>
    decreases stored.len(),
{
    if stored.len() == 0 {
        Seq::empty()
    } else {
        match stored.last() {
            Some(d) => readable(stored.drop_last()).push(d),
            None => readable(stored.drop_last()),
        }
    }
}

/// The whole table: the header row, then the row of each readable user.
pub open spec fn export_table(headers: Seq<Seq<char>>, stored: Seq<Option<UserDataView>>) -> Seq<Seq<Seq<char>>> {
    let users = readable(stored);
    seq![headers] + Seq::new(users.len(), |i: int| user_row(headers, users[i]))
}

pub open spec fn stored_users_view(stored: Seq<Option<UserData>>) -> Seq<Option<UserDataView>> {
    stored.map_values(|o: Option<UserData>| match o {
        Some(d) => Some(d@),
        None => None,
    })
}

pub open spec fn table_view(rows: Seq<Vec<String>>) -> Seq<Seq<Seq<char>>> {
    rows.map_values(|r: Vec<String>| strings_view(r@))
}

fn find_cell(params: &Vec<Param>, header: &String) -> (r: String)
    ensures
        r@ == cell(params_view(params@), header@),
{
    let n = params.len();
    let mut i: usize = 0;
    assert(params_view(params@).skip(0) =~= params_view(params@));
    while i < n
        invariant
            n == params@.len(),
            i <= n,
            cell(params_view(params@), header@) == cell(params_view(params@).skip(i as int), header@),
        decreases n - i,
    {
        let ghost rest = params_view(params@).skip(i as int);
        assert(rest.drop_first() =~= params_view(params@).skip(i + 1));
        assert(rest[0] == params@[i as int]@);
        if params[i].name.eq(header) {
            return match &params[i].value {
                Some(v) => v.clone(),
                None => String::new(),
            };
        }
        i = i + 1;
    }
    String::new()
}

fn user_row_exec(headers: &Vec<String>, d: &UserData) -> (r: Vec<String>)
    ensures
        strings_view(r@) == user_row(strings_view(headers@), d@),
{
    let n = headers.len();
    let mut r: Vec<String> = Vec::new();
    for j in 0..n
        invariant
            n == headers@.len(),
            strings_view(r@) == user_row(strings_view(headers@), d@).take(j as int),
    {
        let c = find_cell(&d.params, &headers[j]);
        let ghost before = r@;
        r.push(c);
        assert(strings_view(r@) =~= strings_view(before).push(c@));
        assert(strings_view(r@) =~= user_row(strings_view(headers@), d@).take(j + 1));
    }
    assert(user_row(strings_view(headers@), d@).take(n as int) =~= user_row(
        strings_view(headers@),
        d@,
    ));
    r
}

/// The table to export for the survey parameters `headers` and the stored
/// users (`None` for one whose data does not read).
pub fn export_rows(headers: &Vec<String>, stored: &Vec<Option<UserData>>) -> (rows: Vec<Vec<String>>)
    ensures
        table_view(rows@) == export_table(strings_view(headers@), stored_users_view(stored@)),
{
    let ghost hv = strings_view(headers@);
    let ghost sv = stored_users_view(stored@);
    let mut rows: Vec<Vec<String>> = Vec::new();
    let mut header_row: Vec<String> = Vec::new();
    let nh = headers.len();
    for j in 0..nh
        invariant
            nh == headers@.len(),
            strings_view(header_row@) == strings_view(headers@).take(j as int),
    {
        let ghost before = header_row@;
        let h = headers[j].clone();
        header_row.push(h);
        assert(strings_view(header_row@) =~= strings_view(before).push(h@));
        assert(strings_view(header_row@) =~= strings_view(headers@).take(j + 1));
    }
    assert(strings_view(headers@).take(nh as int) =~= strings_view(headers@));
    rows.push(header_row);
    let n = stored.len();
    for i in 0..n
        invariant
            n == stored@.len(),
            hv == strings_view(headers@),
            sv == stored_users_view(stored@),
            table_view(rows@) == seq![hv] + Seq::new(
                readable(sv.take(i as int)).len(),
                |k: int| user_row(hv, readable(sv.take(i as int))[k]),
            ),
    {
        assert(sv.take(i + 1).drop_last() =~= sv.take(i as int));
        match &stored[i] {
            Some(d) => {
                let row = user_row_exec(headers, d);
                let ghost before = rows@;
                assert(sv.take(i + 1).last() == Some(d@));
                assert(readable(sv.take(i + 1)) == readable(sv.take(i as int)).push(d@));
                rows.push(row);
                assert(table_view(rows@) =~= table_view(before).push(strings_view(row@)));
                assert(table_view(rows@) =~= seq![hv] + Seq::new(
                    readable(sv.take(i + 1)).len(),
                    |k: int| user_row(hv, readable(sv.take(i + 1))[k]),
                ));
            },
            None => {
                assert(sv.take(i + 1).last() is None);
                assert(readable(sv.take(i + 1)) == readable(sv.take(i as int)));
                assert(table_view(rows@) =~= seq![hv] + Seq::new(
                    readable(sv.take(i + 1)).len(),
                    |k: int| user_row(hv, readable(sv.take(i + 1))[k]),
                ));
            },
        }
    }
    assert(sv.take(n as int) =~= sv);
    rows
}

} // verus!
