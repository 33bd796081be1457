//! The store's line protocol: `GET <key>`, `SET <key> <value>`,
//! `DELETE <key>` and `LIST`, each answered with one reply text.

use vstd::prelude::*;

use super::replication::{replication_note, Replication};
use super::storage::{lists_exactly, pair_view, Storage};
use crate::text::{chars_eq_str, chars_of, push_all, push_str, split_ws, string_of, ws_tokens};

verus! {

/// The listing part of a `LIST` reply: one `key: value` line per pair.
pub open spec fn listing_text(pairs: Seq<(Seq<char>, Seq<char>)>) -> Seq<char>
    decreases pairs.len(),
{
    if pairs.len() == 0 {
        seq![]
    } else {
        listing_text(pairs.drop_last()) + pairs.last().0 + ": "@ + pairs.last().1 + "\n"@
    }
}

/// The store after a command with tokens `t`: `SET` stores, `DELETE`
/// removes, anything else leaves it as it was.
pub open spec fn kv_next(m: Map<Seq<char>, Seq<char>>, t: Seq<Seq<char>>) -> Map<
    Seq<char>,
    Seq<char>,
> {
    if t.len() == 3 && t[0] == "SET"@ {
        m.insert(t[1], t[2])
    } else if t.len() == 2 && t[0] == "DELETE"@ {
        m.remove(t[1])
    } else {
        m
    }
}

/// Whether the command with tokens `t` changes the store and so is
/// handed to replication: `SET k v` and `DELETE k`.
pub open spec fn replicates(t: Seq<Seq<char>>) -> bool {
    (t.len() == 3 && t[0] == "SET"@) || (t.len() == 2 && t[0] == "DELETE"@)
}

/// `reply` is an answer to the command with tokens `t` on store `m`.
/// It is fixed by `m` and `t`, except that a listing may give the entries
/// in any order.
pub open spec fn kv_reply(m: Map<Seq<char>, Seq<char>>, t: Seq<Seq<char>>, reply: Seq<char>) -> bool {
    if t.len() == 2 && t[0] == "GET"@ {
        reply == if m.contains_key(t[1]) {
            "Value: "@ + m[t[1]] + "\n"@
        } else {
            "Key not found\n"@
        }
    } else if (t.len() == 3 && t[0] == "SET"@) || (t.len() == 2 && t[0] == "DELETE"@) {
        reply == "OK\n"@
    } else if t.len() == 1 && t[0] == "LIST"@ {
        if m == Map::<Seq<char>, Seq<char>>::empty() {
            reply == "No key-value pairs stored\n"@
        } else {
            exists|pairs: Seq<(Seq<char>, Seq<char>)>|
                lists_exactly(pairs, m) && reply == "Stored key-value pairs:\n"@ + listing_text(
                    pairs,
                )
        }
    } else {
        reply == "Invalid command\n"@
    }
}

/// Runs one command line against the store and returns the reply, with
/// the replication hook's log record when the command changed the store
/// (`SET` and `DELETE`, each handed to replication once, after the change).
pub fn process_command(command: &str, storage: &mut Storage, replication: &Replication) -> (out: (
    String,
    Option<String>,
))
    ensures
        final(storage)@ == kv_next(old(storage)@, ws_tokens(command@)),
        kv_reply(old(storage)@, ws_tokens(command@), out.0@),
        match out.1 {
            Some(note) => replicates(ws_tokens(command@)) && note@ == replication_note(),
            None => !replicates(ws_tokens(command@)),
        },
{
    let chars = chars_of(command);
    let parts = split_ws(chars.as_slice());
    let ghost t = ws_tokens(command@);
    assert(parts.len() == t.len());
    if parts.len() == 2 && chars_eq_str(parts[0].as_slice(), "GET") {
        assert(parts[0]@ == t[0]);
        proof {
            reveal_strlit("GET");
            reveal_strlit("DELETE");
        }
        let key = string_of(parts[1].as_slice());
        assert(key@ == t[1]);
        let reply = match storage.get(key.as_str()) {
            Some(value) => {
                let mut out: Vec<char> = Vec::new();
                push_str(&mut out, "Value: ");
                push_str(&mut out, value.as_str());
                push_str(&mut out, "\n");
                string_of(out.as_slice())
            },
            None => String::from_str("Key not found\n"),
        };
        assert(storage@ == old(storage)@);
        assert(t[0] == "GET"@ && t[0] != "DELETE"@) by {
            reveal_strlit("GET");
            reveal_strlit("DELETE");
            assert("GET"@.len() != "DELETE"@.len());
        }
        assert(kv_next(old(storage)@, t) == storage@);
        (reply, None)
    } else if parts.len() == 3 && chars_eq_str(parts[0].as_slice(), "SET") {
        assert(parts[0]@ == t[0]);
        let key = string_of(parts[1].as_slice());
        let value = string_of(parts[2].as_slice());
        assert(key@ == t[1] && value@ == t[2]);
        storage.set(key.as_str(), value.as_str());
        let note = replication.replicate(storage);
        (String::from_str("OK\n"), Some(note))
    } else if parts.len() == 2 && chars_eq_str(parts[0].as_slice(), "DELETE") {
        assert(parts[0]@ == t[0]);
        let key = string_of(parts[1].as_slice());
        assert(key@ == t[1]);
        storage.delete(key.as_str());
        let note = replication.replicate(storage);
        (String::from_str("OK\n"), Some(note))
    } else if parts.len() == 1 && chars_eq_str(parts[0].as_slice(), "LIST") {
        assert(parts[0]@ == t[0]);
        proof {
            reveal_strlit("LIST");
            reveal_strlit("SET");
            reveal_strlit("DELETE");
        }
        assert(kv_next(old(storage)@, t) == storage@);
        if storage.is_empty() {
            (String::from_str("No key-value pairs stored\n"), None)
        } else {
            let all_pairs = storage.list_all();
            let ghost pv = all_pairs@.map_values(|p: (String, String)| pair_view(p));
            let mut out: Vec<char> = Vec::new();
            push_str(&mut out, "Stored key-value pairs:\n");
            let ghost header = out@;
            let mut i: usize = 0;
            while i < all_pairs.len()
                invariant
                    i <= all_pairs.len(),
                    pv == all_pairs@.map_values(|p: (String, String)| pair_view(p)),
                    header == "Stored key-value pairs:\n"@,
                    out@ == header + listing_text(pv.take(i as int)),
                decreases all_pairs.len() - i,
            {
                let ghost before = out@;
                push_str(&mut out, all_pairs[i].0.as_str());
                push_str(&mut out, ": ");
                push_str(&mut out, all_pairs[i].1.as_str());
                push_str(&mut out, "\n");
                proof {
                    crate::text::lemma_take_succ(pv, i as int);
                    assert(pv.take(i as int + 1).last() == pair_view(all_pairs@[i as int]));
                    assert(out@ =~= header + listing_text(pv.take(i as int + 1)));
                }
                i += 1;
            }
            assert(pv.take(all_pairs.len() as int) =~= pv);
            (string_of(out.as_slice()), None)
        }
    } else {
        assert(kv_next(old(storage)@, t) == storage@);
        (String::from_str("Invalid command\n"), None)
    }
}

/// Reading a key right after storing it gives back the stored value: a
/// `SET k v` followed by `GET k` answers `Value: v`.
pub proof fn law_get_after_set(
    m: Map<Seq<char>, Seq<char>>,
    set_cmd: Seq<Seq<char>>,
    get_cmd: Seq<Seq<char>>,
    reply: Seq<char>,
)
    requires
        set_cmd.len() == 3 && set_cmd[0] == "SET"@,
        get_cmd.len() == 2 && get_cmd[0] == "GET"@ && get_cmd[1] == set_cmd[1],
        kv_reply(kv_next(m, set_cmd), get_cmd, reply),
    ensures
        reply == "Value: "@ + set_cmd[2] + "\n"@,
{
}

/// Storing under one key leaves every other key as it was.
pub proof fn law_set_keeps_other_keys(
    m: Map<Seq<char>, Seq<char>>,
    set_cmd: Seq<Seq<char>>,
    k: Seq<char>,
)
    requires
        set_cmd.len() == 3 && set_cmd[0] == "SET"@,
        k != set_cmd[1],
    ensures
        kv_next(m, set_cmd).contains_key(k) == m.contains_key(k),
        m.contains_key(k) ==> kv_next(m, set_cmd)[k] == m[k],
{
}

/// Deleting one key leaves every other key as it was, so reading another
/// key afterwards answers as it did before.
pub proof fn law_delete_keeps_other_keys(
    m: Map<Seq<char>, Seq<char>>,
    del_cmd: Seq<Seq<char>>,
    get_cmd: Seq<Seq<char>>,
    reply: Seq<char>,
)
    requires
        del_cmd.len() == 2 && del_cmd[0] == "DELETE"@,
        get_cmd.len() == 2 && get_cmd[0] == "GET"@ && get_cmd[1] != del_cmd[1],
        kv_reply(kv_next(m, del_cmd), get_cmd, reply),
    ensures
        kv_next(m, del_cmd).contains_key(get_cmd[1]) == m.contains_key(get_cmd[1]),
        m.contains_key(get_cmd[1]) ==> kv_next(m, del_cmd)[get_cmd[1]] == m[get_cmd[1]],
        kv_reply(m, get_cmd, reply),
        m.contains_key(get_cmd[1]) ==> reply == "Value: "@ + m[get_cmd[1]] + "\n"@,
{
}

/// After `DELETE k`, reading `k` answers that the key is not found.
pub proof fn law_get_after_delete(
    m: Map<Seq<char>, Seq<char>>,
    del_cmd: Seq<Seq<char>>,
    get_cmd: Seq<Seq<char>>,
    reply: Seq<char>,
)
    requires
        del_cmd.len() == 2 && del_cmd[0] == "DELETE"@,
        get_cmd.len() == 2 && get_cmd[0] == "GET"@ && get_cmd[1] == del_cmd[1],
        kv_reply(kv_next(m, del_cmd), get_cmd, reply),
    ensures
        reply == "Key not found\n"@,
{
}

/// Commands other than `SET` and `DELETE` never change the store.
pub proof fn law_reads_keep_store(m: Map<Seq<char>, Seq<char>>, t: Seq<Seq<char>>)
    requires
        !(t.len() == 3 && t[0] == "SET"@),
        !(t.len() == 2 && t[0] == "DELETE"@),
    ensures
        kv_next(m, t) == m,
{
}

} // verus!
