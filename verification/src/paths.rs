use vstd::prelude::*;

verus! {

/// The character of one decimal digit.
pub open spec fn digit_char(d: nat) -> char
    recommends
        d < 10,
{
    if d == 0 {
        '0'
    } else if d == 1 {
        '1'
    } else if d == 2 {
        '2'
    } else if d == 3 {
        '3'
    } else if d == 4 {
        '4'
    } else if d == 5 {
        '5'
    } else if d == 6 {
        '6'
    } else if d == 7 {
        '7'
    } else if d == 8 {
        '8'
    } else {
        '9'
    }
}

/// The usual decimal rendering of `n`: most significant digit first,
/// no leading zeros except for zero itself.
pub open spec fn dec_digits(n: nat) -> Seq<char>
    decreases n,
{
    if n < 10 {
        seq![digit_char(n)]
    } else {
        dec_digits(n / 10) + seq![digit_char(n % 10)]
    }
}

fn append_digit(out: &mut String, d: usize)
    requires
        d < 10,
    ensures
        final(out)@ == old(out)@ + seq![digit_char(d as nat)],
{
    let s: &str = if d == 0 {
        "0"
    } else if d == 1 {
        "1"
    } else if d == 2 {
        "2"
    } else if d == 3 {
        "3"
    } else if d == 4 {
        "4"
    } else if d == 5 {
        "5"
    } else if d == 6 {
        "6"
    } else if d == 7 {
        "7"
    } else if d == 8 {
        "8"
    } else {
        "9"
    };
    proof {
        reveal_strlit("0");
        reveal_strlit("1");
        reveal_strlit("2");
        reveal_strlit("3");
        reveal_strlit("4");
        reveal_strlit("5");
        reveal_strlit("6");
        reveal_strlit("7");
        reveal_strlit("8");
        reveal_strlit("9");
        assert(s@ =~= seq![digit_char(d as nat)]);
    }
    out.append(s);
}

fn append_decimal(out: &mut String, n: usize)
    ensures
        final(out)@ == old(out)@ + dec_digits(n as nat),
    decreases n,
{
    if n >= 10 {
        append_decimal(out, n / 10);
        append_digit(out, n % 10);
        proof {
            assert(final(out)@ =~= old(out)@ + dec_digits(n as nat));
        }
    } else {
        append_digit(out, n);
    }
}

/// Render `n` in decimal.
pub fn usize_to_decimal(n: usize) -> (r: String)
    ensures
        r@ == dec_digits(n as nat),
{
    let mut s = String::new();
    append_decimal(&mut s, n);
    proof {
        assert(Seq::<char>::empty() + dec_digits(n as nat) =~= dec_digits(n as nat));
    }
    s
}

/// The collection path for the objects of a space.
pub open spec fn objects_path_view(space_id: Seq<char>) -> Seq<char> {
    "/v1/spaces/"@ + space_id + "/objects"@
}

/// The path of a single object.
pub open spec fn object_path_view(space_id: Seq<char>, object_id: Seq<char>) -> Seq<char> {
    objects_path_view(space_id) + "/"@ + object_id
}

/// The query string of a listing request: `limit` and `offset` appear
/// only when present, in that order, joined by `&` behind a single `?`;
/// with neither present the query is empty.
pub open spec fn list_query_view(limit: Option<usize>, offset: Option<usize>) -> Seq<char> {
    match (limit, offset) {
        (Option::None, Option::None) => Seq::empty(),
        (Option::Some(l), Option::None) => "?limit="@ + dec_digits(l as nat),
        (Option::None, Option::Some(o)) => "?offset="@ + dec_digits(o as nat),
        (Option::Some(l), Option::Some(o)) => "?limit="@ + dec_digits(l as nat) + "&offset="@
            + dec_digits(o as nat),
    }
}

/// Build the collection path for the objects of a space.
pub fn objects_path(space_id: &str) -> (r: String)
    ensures
        r@ == objects_path_view(space_id@),
{
    let mut s = String::from_str("/v1/spaces/");
    s.append(space_id);
    s.append("/objects");
    proof {
        assert(s@ =~= objects_path_view(space_id@));
    }
    s
}

/// Build the path of a single object.
pub fn object_path(space_id: &str, object_id: &str) -> (r: String)
    ensures
        r@ == object_path_view(space_id@, object_id@),
{
    let mut s = objects_path(space_id);
    s.append("/");
    s.append(object_id);
    proof {
        assert(s@ =~= object_path_view(space_id@, object_id@));
    }
    s
}

/// Build the full listing URL: the collection path, then `limit` and
/// `offset` as query parameters only when present.
pub fn list_objects_url(space_id: &str, limit: Option<usize>, offset: Option<usize>) -> (r: String)
    ensures
        r@ == objects_path_view(space_id@) + list_query_view(limit, offset),
{
    let mut s = objects_path(space_id);
    match (limit, offset) {
        (Option::None, Option::None) => {
            proof {
                assert(s@ =~= objects_path_view(space_id@) + list_query_view(limit, offset));
            }
        },
        (Option::Some(l), Option::None) => {
            s.append("?limit=");
            append_decimal(&mut s, l);
            proof {
                assert(s@ =~= objects_path_view(space_id@) + list_query_view(limit, offset));
            }
        },
        (Option::None, Option::Some(o)) => {
            s.append("?offset=");
            append_decimal(&mut s, o);
            proof {
                assert(s@ =~= objects_path_view(space_id@) + list_query_view(limit, offset));
            }
        },
        (Option::Some(l), Option::Some(o)) => {
            s.append("?limit=");
            append_decimal(&mut s, l);
            s.append("&offset=");
            append_decimal(&mut s, o);
            proof {
                assert(s@ =~= objects_path_view(space_id@) + list_query_view(limit, offset));
            }
        },
    }
    s
}

} // verus!
