use crate::controller::input_handle_items::{
    drop, drop_allowed, drop_cmd_done, equip, equip_cmd_done, pickup, pickup_allowed, pickup_cmd_done, strip,
    strip_cmd_done,
};
use crate::controller::input_handle_hire;
use crate::controller::input_handle_hire::hire_command_done;
use crate::controller::{ConnectionView, ConnectionViewAction};
use crate::errors::Error;
use crate::game::actions;
use crate::game::actions::{look_done, move_allowed, mv, mv_done, out, out_allowed, out_done, show_map_done};
use crate::game::actions_items::{same_but_outputs, told};
use crate::game::comm;
use crate::game::container::Container;
use crate::game::domain::Dir;
use crate::game::item::{Item, ItemId};
use crate::game::comm::{inventory_text, plain_items, stats_text, InventoryDesc, InventoryItemDesc};
use crate::game::equip::equipment_of;
use crate::game::inventory_service;
use crate::game::inventory_service::only_items;
use crate::game::labels::label_text;
use crate::game::location::{children, obj_values};
use crate::ids::ObjId;
use crate::game::mob::MobId;
use crate::utils::strinput::{lead, lemma_lead_scan, words, StrInput};
use crate::utils::text::str_eq;
use vstd::prelude::*;

verus! {

/// The first word of a line, or the empty text where there is none.
pub open spec fn first_word(s: Seq<char>) -> Seq<char> {
    if words(s).len() > 0 {
        words(s)[0]
    } else {
        Seq::empty()
    }
}

/// What a line typed in the game asks for.
#[derive(Debug, Clone, Copy, PartialEq, Eq, Structural)]
pub enum MainCommand {
    SwitchAdmin,
    Logout,
    Help,
    Uptime,
    Jump,
    Look,
    Move(Dir),
    Enter,
    Out,
    Rest,
    Stand,
    Stats,
    Pickup,
    Drop,
    Remove,
    Equip,
    Examine,
    Kill,
    Say,
    ShowStartree,
    ShowMap,
    MoveList,
    MoveTo,
    LandList,
    LandAt,
    Launch,
    Buy,
    Sell,
    Hire,
    Extract,
    Unknown,
}

/// What a line typed in the game asks for, as `main_command` reads it.
pub open spec fn main_command(input: Seq<char>) -> MainCommand {
    let first = first_word(input);
    if first == "admin"@ {
        MainCommand::SwitchAdmin
    } else if first == "logout"@ {
        MainCommand::Logout
    } else if first == "h"@ || first == "help"@ {
        MainCommand::Help
    } else if first == "uptime"@ {
        MainCommand::Uptime
    } else if first == "jump"@ {
        MainCommand::Jump
    } else if input == "l"@ || input == "look"@ {
        MainCommand::Look
    } else if input == "n"@ {
        MainCommand::Move(Dir::N)
    } else if input == "s"@ {
        MainCommand::Move(Dir::S)
    } else if input == "e"@ {
        MainCommand::Move(Dir::E)
    } else if input == "w"@ {
        MainCommand::Move(Dir::W)
    } else if input == "enter"@ {
        MainCommand::Enter
    } else if first == "enter"@ {
        MainCommand::Enter
    } else if input == "exit"@ || input == "out"@ {
        MainCommand::Out
    } else if input == "rest"@ {
        MainCommand::Rest
    } else if input == "stand"@ {
        MainCommand::Stand
    } else if input == "stats"@ || input == "inv"@ || input == "score"@ {
        MainCommand::Stats
    } else if first == "pick"@ || first == "get"@ {
        MainCommand::Pickup
    } else if first == "drop"@ {
        MainCommand::Drop
    } else if first == "remove"@ {
        MainCommand::Remove
    } else if first == "equip"@ {
        MainCommand::Equip
    } else if first == "examine"@ {
        MainCommand::Examine
    } else if first == "k"@ || first == "kill"@ {
        MainCommand::Kill
    } else if first == "say"@ {
        MainCommand::Say
    } else if input == "sm"@ {
        MainCommand::ShowStartree
    } else if input == "map"@ {
        MainCommand::ShowMap
    } else if input == "move"@ {
        MainCommand::MoveList
    } else if first == "move"@ {
        MainCommand::MoveTo
    } else if input == "land"@ {
        MainCommand::LandList
    } else if first == "land"@ {
        MainCommand::LandAt
    } else if input == "launch"@ {
        MainCommand::Launch
    } else if first == "buy"@ {
        MainCommand::Buy
    } else if first == "sell"@ {
        MainCommand::Sell
    } else if first == "hire"@ {
        MainCommand::Hire
    } else if first == "extract"@ {
        MainCommand::Extract
    } else {
        MainCommand::Unknown
    }
}

/// Read what a line typed in the game asks for.
/// A text of one word, without spaces, is its own first word.
proof fn lemma_single_word(s: Seq<char>)
    requires
        s.len() > 0,
        forall|k: int| 0 <= k < s.len() ==> s[k] != ' ',
    ensures
        first_word(s) == s,
{
    lemma_lead_scan(s, true, 0);
    assert(s.skip(0) =~= s);
    lemma_lead_scan(s, false, s.len() as int);
    assert(s.take(s.len() as int) =~= s);
    assert(s.skip(s.len() as int) =~= Seq::<char>::empty());
    assert(words(Seq::<char>::empty()) =~= Seq::<Seq<char>>::empty());
    assert(words(s) =~= seq![s]);
}

/// The lines that some commands must be exactly are single words.
proof fn lemma_plain_words(line: Seq<char>)
    ensures
        line == "l"@ ==> first_word(line) == "l"@,
        line == "look"@ ==> first_word(line) == "look"@,
        line == "n"@ ==> first_word(line) == "n"@,
        line == "s"@ ==> first_word(line) == "s"@,
        line == "e"@ ==> first_word(line) == "e"@,
        line == "w"@ ==> first_word(line) == "w"@,
        line == "enter"@ ==> first_word(line) == "enter"@,
        line == "exit"@ ==> first_word(line) == "exit"@,
        line == "out"@ ==> first_word(line) == "out"@,
        line == "rest"@ ==> first_word(line) == "rest"@,
        line == "stand"@ ==> first_word(line) == "stand"@,
        line == "stats"@ ==> first_word(line) == "stats"@,
        line == "inv"@ ==> first_word(line) == "inv"@,
        line == "score"@ ==> first_word(line) == "score"@,
        line == "sm"@ ==> first_word(line) == "sm"@,
        line == "map"@ ==> first_word(line) == "map"@,
        line == "move"@ ==> first_word(line) == "move"@,
        line == "land"@ ==> first_word(line) == "land"@,
        line == "launch"@ ==> first_word(line) == "launch"@,
{
    reveal_strlit("l");
    if line == "l"@ {
        lemma_single_word(line);
    }
    reveal_strlit("look");
    if line == "look"@ {
        lemma_single_word(line);
    }
    reveal_strlit("n");
    if line == "n"@ {
        lemma_single_word(line);
    }
    reveal_strlit("s");
    if line == "s"@ {
        lemma_single_word(line);
    }
    reveal_strlit("e");
    if line == "e"@ {
        lemma_single_word(line);
    }
    reveal_strlit("w");
    if line == "w"@ {
        lemma_single_word(line);
    }
    reveal_strlit("enter");
    if line == "enter"@ {
        lemma_single_word(line);
    }
    reveal_strlit("exit");
    if line == "exit"@ {
        lemma_single_word(line);
    }
    reveal_strlit("out");
    if line == "out"@ {
        lemma_single_word(line);
    }
    reveal_strlit("rest");
    if line == "rest"@ {
        lemma_single_word(line);
    }
    reveal_strlit("stand");
    if line == "stand"@ {
        lemma_single_word(line);
    }
    reveal_strlit("stats");
    if line == "stats"@ {
        lemma_single_word(line);
    }
    reveal_strlit("inv");
    if line == "inv"@ {
        lemma_single_word(line);
    }
    reveal_strlit("score");
    if line == "score"@ {
        lemma_single_word(line);
    }
    reveal_strlit("sm");
    if line == "sm"@ {
        lemma_single_word(line);
    }
    reveal_strlit("map");
    if line == "map"@ {
        lemma_single_word(line);
    }
    reveal_strlit("move");
    if line == "move"@ {
        lemma_single_word(line);
    }
    reveal_strlit("land");
    if line == "land"@ {
        lemma_single_word(line);
    }
    reveal_strlit("launch");
    if line == "launch"@ {
        lemma_single_word(line);
    }
}

/// Law: the first word of a line decides the commands that take arguments, whatever follows it.
pub proof fn first_word_decides(line: Seq<char>)
    ensures
        first_word(line) == "get"@ || first_word(line) == "pick"@ ==> main_command(line) == MainCommand::Pickup,
        first_word(line) == "drop"@ ==> main_command(line) == MainCommand::Drop,
        first_word(line) == "remove"@ ==> main_command(line) == MainCommand::Remove,
        first_word(line) == "equip"@ ==> main_command(line) == MainCommand::Equip,
        first_word(line) == "examine"@ ==> main_command(line) == MainCommand::Examine,
        first_word(line) == "k"@ || first_word(line) == "kill"@ ==> main_command(line) == MainCommand::Kill,
        first_word(line) == "say"@ ==> main_command(line) == MainCommand::Say,
        first_word(line) == "buy"@ ==> main_command(line) == MainCommand::Buy,
        first_word(line) == "sell"@ ==> main_command(line) == MainCommand::Sell,
        first_word(line) == "hire"@ ==> main_command(line) == MainCommand::Hire,
        first_word(line) == "extract"@ ==> main_command(line) == MainCommand::Extract,
{
    lemma_plain_words(line);
    assert(first_word(line) == "get"@ || first_word(line) == "pick"@ ==> main_command(line) == MainCommand::Pickup) by {
        reveal_strlit("l");
        assert("l"@.len() == 1 && "l"@[0] == 'l');
        reveal_strlit("look");
        assert("look"@.len() == 4 && "look"@[0] == 'l' && "look"@[1] == 'o' && "look"@[2] == 'o' && "look"@[3] == 'k');
        reveal_strlit("n");
        assert("n"@.len() == 1 && "n"@[0] == 'n');
        reveal_strlit("s");
        assert("s"@.len() == 1 && "s"@[0] == 's');
        reveal_strlit("e");
        assert("e"@.len() == 1 && "e"@[0] == 'e');
        reveal_strlit("w");
        assert("w"@.len() == 1 && "w"@[0] == 'w');
        reveal_strlit("enter");
        assert("enter"@.len() == 5 && "enter"@[0] == 'e' && "enter"@[1] == 'n' && "enter"@[2] == 't' && "enter"@[3] == 'e' && "enter"@[4] == 'r');
        reveal_strlit("exit");
        assert("exit"@.len() == 4 && "exit"@[0] == 'e' && "exit"@[1] == 'x' && "exit"@[2] == 'i' && "exit"@[3] == 't');
        reveal_strlit("out");
        assert("out"@.len() == 3 && "out"@[0] == 'o' && "out"@[1] == 'u' && "out"@[2] == 't');
        reveal_strlit("rest");
        assert("rest"@.len() == 4 && "rest"@[0] == 'r' && "rest"@[1] == 'e' && "rest"@[2] == 's' && "rest"@[3] == 't');
        reveal_strlit("stand");
        assert("stand"@.len() == 5 && "stand"@[0] == 's' && "stand"@[1] == 't' && "stand"@[2] == 'a' && "stand"@[3] == 'n' && "stand"@[4] == 'd');
        reveal_strlit("stats");
        assert("stats"@.len() == 5 && "stats"@[0] == 's' && "stats"@[1] == 't' && "stats"@[2] == 'a' && "stats"@[3] == 't' && "stats"@[4] == 's');
        reveal_strlit("inv");
        assert("inv"@.len() == 3 && "inv"@[0] == 'i' && "inv"@[1] == 'n' && "inv"@[2] == 'v');
        reveal_strlit("score");
        assert("score"@.len() == 5 && "score"@[0] == 's' && "score"@[1] == 'c' && "score"@[2] == 'o' && "score"@[3] == 'r' && "score"@[4] == 'e');
        reveal_strlit("sm");
        assert("sm"@.len() == 2 && "sm"@[0] == 's' && "sm"@[1] == 'm');
        reveal_strlit("map");
        assert("map"@.len() == 3 && "map"@[0] == 'm' && "map"@[1] == 'a' && "map"@[2] == 'p');
        reveal_strlit("move");
        assert("move"@.len() == 4 && "move"@[0] == 'm' && "move"@[1] == 'o' && "move"@[2] == 'v' && "move"@[3] == 'e');
        reveal_strlit("land");
        assert("land"@.len() == 4 && "land"@[0] == 'l' && "land"@[1] == 'a' && "land"@[2] == 'n' && "land"@[3] == 'd');
        reveal_strlit("launch");
        assert("launch"@.len() == 6 && "launch"@[0] == 'l' && "launch"@[1] == 'a' && "launch"@[2] == 'u' && "launch"@[3] == 'n' && "launch"@[4] == 'c' && "launch"@[5] == 'h');
        reveal_strlit("admin");
        assert("admin"@.len() == 5 && "admin"@[0] == 'a' && "admin"@[1] == 'd' && "admin"@[2] == 'm' && "admin"@[3] == 'i' && "admin"@[4] == 'n');
        reveal_strlit("logout");
        assert("logout"@.len() == 6 && "logout"@[0] == 'l' && "logout"@[1] == 'o' && "logout"@[2] == 'g' && "logout"@[3] == 'o' && "logout"@[4] == 'u' && "logout"@[5] == 't');
        reveal_strlit("h");
        assert("h"@.len() == 1 && "h"@[0] == 'h');
        reveal_strlit("help");
        assert("help"@.len() == 4 && "help"@[0] == 'h' && "help"@[1] == 'e' && "help"@[2] == 'l' && "help"@[3] == 'p');
        reveal_strlit("uptime");
        assert("uptime"@.len() == 6 && "uptime"@[0] == 'u' && "uptime"@[1] == 'p' && "uptime"@[2] == 't' && "uptime"@[3] == 'i' && "uptime"@[4] == 'm' && "uptime"@[5] == 'e');
        reveal_strlit("jump");
        assert("jump"@.len() == 4 && "jump"@[0] == 'j' && "jump"@[1] == 'u' && "jump"@[2] == 'm' && "jump"@[3] == 'p');
        reveal_strlit("pick");
        assert("pick"@.len() == 4 && "pick"@[0] == 'p' && "pick"@[1] == 'i' && "pick"@[2] == 'c' && "pick"@[3] == 'k');
        reveal_strlit("get");
        assert("get"@.len() == 3 && "get"@[0] == 'g' && "get"@[1] == 'e' && "get"@[2] == 't');
        reveal_strlit("drop");
        assert("drop"@.len() == 4 && "drop"@[0] == 'd' && "drop"@[1] == 'r' && "drop"@[2] == 'o' && "drop"@[3] == 'p');
        reveal_strlit("remove");
        assert("remove"@.len() == 6 && "remove"@[0] == 'r' && "remove"@[1] == 'e' && "remove"@[2] == 'm' && "remove"@[3] == 'o' && "remove"@[4] == 'v' && "remove"@[5] == 'e');
        reveal_strlit("equip");
        assert("equip"@.len() == 5 && "equip"@[0] == 'e' && "equip"@[1] == 'q' && "equip"@[2] == 'u' && "equip"@[3] == 'i' && "equip"@[4] == 'p');
        reveal_strlit("examine");
        assert("examine"@.len() == 7 && "examine"@[0] == 'e' && "examine"@[1] == 'x' && "examine"@[2] == 'a' && "examine"@[3] == 'm' && "examine"@[4] == 'i' && "examine"@[5] == 'n' && "examine"@[6] == 'e');
        reveal_strlit("k");
        assert("k"@.len() == 1 && "k"@[0] == 'k');
        reveal_strlit("kill");
        assert("kill"@.len() == 4 && "kill"@[0] == 'k' && "kill"@[1] == 'i' && "kill"@[2] == 'l' && "kill"@[3] == 'l');
        reveal_strlit("say");
        assert("say"@.len() == 3 && "say"@[0] == 's' && "say"@[1] == 'a' && "say"@[2] == 'y');
        reveal_strlit("buy");
        assert("buy"@.len() == 3 && "buy"@[0] == 'b' && "buy"@[1] == 'u' && "buy"@[2] == 'y');
        reveal_strlit("sell");
        assert("sell"@.len() == 4 && "sell"@[0] == 's' && "sell"@[1] == 'e' && "sell"@[2] == 'l' && "sell"@[3] == 'l');
        reveal_strlit("hire");
        assert("hire"@.len() == 4 && "hire"@[0] == 'h' && "hire"@[1] == 'i' && "hire"@[2] == 'r' && "hire"@[3] == 'e');
        reveal_strlit("extract");
        assert("extract"@.len() == 7 && "extract"@[0] == 'e' && "extract"@[1] == 'x' && "extract"@[2] == 't' && "extract"@[3] == 'r' && "extract"@[4] == 'a' && "extract"@[5] == 'c' && "extract"@[6] == 't');
    }
    assert(first_word(line) == "drop"@ ==> main_command(line) == MainCommand::Drop) by {
        reveal_strlit("l");
        assert("l"@.len() == 1 && "l"@[0] == 'l');
        reveal_strlit("look");
        assert("look"@.len() == 4 && "look"@[0] == 'l' && "look"@[1] == 'o' && "look"@[2] == 'o' && "look"@[3] == 'k');
        reveal_strlit("n");
        assert("n"@.len() == 1 && "n"@[0] == 'n');
        reveal_strlit("s");
        assert("s"@.len() == 1 && "s"@[0] == 's');
        reveal_strlit("e");
        assert("e"@.len() == 1 && "e"@[0] == 'e');
        reveal_strlit("w");
        assert("w"@.len() == 1 && "w"@[0] == 'w');
        reveal_strlit("enter");
        assert("enter"@.len() == 5 && "enter"@[0] == 'e' && "enter"@[1] == 'n' && "enter"@[2] == 't' && "enter"@[3] == 'e' && "enter"@[4] == 'r');
        reveal_strlit("exit");
        assert("exit"@.len() == 4 && "exit"@[0] == 'e' && "exit"@[1] == 'x' && "exit"@[2] == 'i' && "exit"@[3] == 't');
        reveal_strlit("out");
        assert("out"@.len() == 3 && "out"@[0] == 'o' && "out"@[1] == 'u' && "out"@[2] == 't');
        reveal_strlit("rest");
        assert("rest"@.len() == 4 && "rest"@[0] == 'r' && "rest"@[1] == 'e' && "rest"@[2] == 's' && "rest"@[3] == 't');
        reveal_strlit("stand");
        assert("stand"@.len() == 5 && "stand"@[0] == 's' && "stand"@[1] == 't' && "stand"@[2] == 'a' && "stand"@[3] == 'n' && "stand"@[4] == 'd');
        reveal_strlit("stats");
        assert("stats"@.len() == 5 && "stats"@[0] == 's' && "stats"@[1] == 't' && "stats"@[2] == 'a' && "stats"@[3] == 't' && "stats"@[4] == 's');
        reveal_strlit("inv");
        assert("inv"@.len() == 3 && "inv"@[0] == 'i' && "inv"@[1] == 'n' && "inv"@[2] == 'v');
        reveal_strlit("score");
        assert("score"@.len() == 5 && "score"@[0] == 's' && "score"@[1] == 'c' && "score"@[2] == 'o' && "score"@[3] == 'r' && "score"@[4] == 'e');
        reveal_strlit("sm");
        assert("sm"@.len() == 2 && "sm"@[0] == 's' && "sm"@[1] == 'm');
        reveal_strlit("map");
        assert("map"@.len() == 3 && "map"@[0] == 'm' && "map"@[1] == 'a' && "map"@[2] == 'p');
        reveal_strlit("move");
        assert("move"@.len() == 4 && "move"@[0] == 'm' && "move"@[1] == 'o' && "move"@[2] == 'v' && "move"@[3] == 'e');
        reveal_strlit("land");
        assert("land"@.len() == 4 && "land"@[0] == 'l' && "land"@[1] == 'a' && "land"@[2] == 'n' && "land"@[3] == 'd');
        reveal_strlit("launch");
        assert("launch"@.len() == 6 && "launch"@[0] == 'l' && "launch"@[1] == 'a' && "launch"@[2] == 'u' && "launch"@[3] == 'n' && "launch"@[4] == 'c' && "launch"@[5] == 'h');
        reveal_strlit("admin");
        assert("admin"@.len() == 5 && "admin"@[0] == 'a' && "admin"@[1] == 'd' && "admin"@[2] == 'm' && "admin"@[3] == 'i' && "admin"@[4] == 'n');
        reveal_strlit("logout");
        assert("logout"@.len() == 6 && "logout"@[0] == 'l' && "logout"@[1] == 'o' && "logout"@[2] == 'g' && "logout"@[3] == 'o' && "logout"@[4] == 'u' && "logout"@[5] == 't');
        reveal_strlit("h");
        assert("h"@.len() == 1 && "h"@[0] == 'h');
        reveal_strlit("help");
        assert("help"@.len() == 4 && "help"@[0] == 'h' && "help"@[1] == 'e' && "help"@[2] == 'l' && "help"@[3] == 'p');
        reveal_strlit("uptime");
        assert("uptime"@.len() == 6 && "uptime"@[0] == 'u' && "uptime"@[1] == 'p' && "uptime"@[2] == 't' && "uptime"@[3] == 'i' && "uptime"@[4] == 'm' && "uptime"@[5] == 'e');
        reveal_strlit("jump");
        assert("jump"@.len() == 4 && "jump"@[0] == 'j' && "jump"@[1] == 'u' && "jump"@[2] == 'm' && "jump"@[3] == 'p');
        reveal_strlit("pick");
        assert("pick"@.len() == 4 && "pick"@[0] == 'p' && "pick"@[1] == 'i' && "pick"@[2] == 'c' && "pick"@[3] == 'k');
        reveal_strlit("get");
        assert("get"@.len() == 3 && "get"@[0] == 'g' && "get"@[1] == 'e' && "get"@[2] == 't');
        reveal_strlit("drop");
        assert("drop"@.len() == 4 && "drop"@[0] == 'd' && "drop"@[1] == 'r' && "drop"@[2] == 'o' && "drop"@[3] == 'p');
        reveal_strlit("remove");
        assert("remove"@.len() == 6 && "remove"@[0] == 'r' && "remove"@[1] == 'e' && "remove"@[2] == 'm' && "remove"@[3] == 'o' && "remove"@[4] == 'v' && "remove"@[5] == 'e');
        reveal_strlit("equip");
        assert("equip"@.len() == 5 && "equip"@[0] == 'e' && "equip"@[1] == 'q' && "equip"@[2] == 'u' && "equip"@[3] == 'i' && "equip"@[4] == 'p');
        reveal_strlit("examine");
        assert("examine"@.len() == 7 && "examine"@[0] == 'e' && "examine"@[1] == 'x' && "examine"@[2] == 'a' && "examine"@[3] == 'm' && "examine"@[4] == 'i' && "examine"@[5] == 'n' && "examine"@[6] == 'e');
        reveal_strlit("k");
        assert("k"@.len() == 1 && "k"@[0] == 'k');
        reveal_strlit("kill");
        assert("kill"@.len() == 4 && "kill"@[0] == 'k' && "kill"@[1] == 'i' && "kill"@[2] == 'l' && "kill"@[3] == 'l');
        reveal_strlit("say");
        assert("say"@.len() == 3 && "say"@[0] == 's' && "say"@[1] == 'a' && "say"@[2] == 'y');
        reveal_strlit("buy");
        assert("buy"@.len() == 3 && "buy"@[0] == 'b' && "buy"@[1] == 'u' && "buy"@[2] == 'y');
        reveal_strlit("sell");
        assert("sell"@.len() == 4 && "sell"@[0] == 's' && "sell"@[1] == 'e' && "sell"@[2] == 'l' && "sell"@[3] == 'l');
        reveal_strlit("hire");
        assert("hire"@.len() == 4 && "hire"@[0] == 'h' && "hire"@[1] == 'i' && "hire"@[2] == 'r' && "hire"@[3] == 'e');
        reveal_strlit("extract");
        assert("extract"@.len() == 7 && "extract"@[0] == 'e' && "extract"@[1] == 'x' && "extract"@[2] == 't' && "extract"@[3] == 'r' && "extract"@[4] == 'a' && "extract"@[5] == 'c' && "extract"@[6] == 't');
    }
    assert(first_word(line) == "remove"@ ==> main_command(line) == MainCommand::Remove) by {
        reveal_strlit("l");
        assert("l"@.len() == 1 && "l"@[0] == 'l');
        reveal_strlit("look");
        assert("look"@.len() == 4 && "look"@[0] == 'l' && "look"@[1] == 'o' && "look"@[2] == 'o' && "look"@[3] == 'k');
        reveal_strlit("n");
        assert("n"@.len() == 1 && "n"@[0] == 'n');
        reveal_strlit("s");
        assert("s"@.len() == 1 && "s"@[0] == 's');
        reveal_strlit("e");
        assert("e"@.len() == 1 && "e"@[0] == 'e');
        reveal_strlit("w");
        assert("w"@.len() == 1 && "w"@[0] == 'w');
        reveal_strlit("enter");
        assert("enter"@.len() == 5 && "enter"@[0] == 'e' && "enter"@[1] == 'n' && "enter"@[2] == 't' && "enter"@[3] == 'e' && "enter"@[4] == 'r');
        reveal_strlit("exit");
        assert("exit"@.len() == 4 && "exit"@[0] == 'e' && "exit"@[1] == 'x' && "exit"@[2] == 'i' && "exit"@[3] == 't');
        reveal_strlit("out");
        assert("out"@.len() == 3 && "out"@[0] == 'o' && "out"@[1] == 'u' && "out"@[2] == 't');
        reveal_strlit("rest");
        assert("rest"@.len() == 4 && "rest"@[0] == 'r' && "rest"@[1] == 'e' && "rest"@[2] == 's' && "rest"@[3] == 't');
        reveal_strlit("stand");
        assert("stand"@.len() == 5 && "stand"@[0] == 's' && "stand"@[1] == 't' && "stand"@[2] == 'a' && "stand"@[3] == 'n' && "stand"@[4] == 'd');
        reveal_strlit("stats");
        assert("stats"@.len() == 5 && "stats"@[0] == 's' && "stats"@[1] == 't' && "stats"@[2] == 'a' && "stats"@[3] == 't' && "stats"@[4] == 's');
        reveal_strlit("inv");
        assert("inv"@.len() == 3 && "inv"@[0] == 'i' && "inv"@[1] == 'n' && "inv"@[2] == 'v');
        reveal_strlit("score");
        assert("score"@.len() == 5 && "score"@[0] == 's' && "score"@[1] == 'c' && "score"@[2] == 'o' && "score"@[3] == 'r' && "score"@[4] == 'e');
        reveal_strlit("sm");
        assert("sm"@.len() == 2 && "sm"@[0] == 's' && "sm"@[1] == 'm');
        reveal_strlit("map");
        assert("map"@.len() == 3 && "map"@[0] == 'm' && "map"@[1] == 'a' && "map"@[2] == 'p');
        reveal_strlit("move");
        assert("move"@.len() == 4 && "move"@[0] == 'm' && "move"@[1] == 'o' && "move"@[2] == 'v' && "move"@[3] == 'e');
        reveal_strlit("land");
        assert("land"@.len() == 4 && "land"@[0] == 'l' && "land"@[1] == 'a' && "land"@[2] == 'n' && "land"@[3] == 'd');
        reveal_strlit("launch");
        assert("launch"@.len() == 6 && "launch"@[0] == 'l' && "launch"@[1] == 'a' && "launch"@[2] == 'u' && "launch"@[3] == 'n' && "launch"@[4] == 'c' && "launch"@[5] == 'h');
        reveal_strlit("admin");
        assert("admin"@.len() == 5 && "admin"@[0] == 'a' && "admin"@[1] == 'd' && "admin"@[2] == 'm' && "admin"@[3] == 'i' && "admin"@[4] == 'n');
        reveal_strlit("logout");
        assert("logout"@.len() == 6 && "logout"@[0] == 'l' && "logout"@[1] == 'o' && "logout"@[2] == 'g' && "logout"@[3] == 'o' && "logout"@[4] == 'u' && "logout"@[5] == 't');
        reveal_strlit("h");
        assert("h"@.len() == 1 && "h"@[0] == 'h');
        reveal_strlit("help");
        assert("help"@.len() == 4 && "help"@[0] == 'h' && "help"@[1] == 'e' && "help"@[2] == 'l' && "help"@[3] == 'p');
        reveal_strlit("uptime");
        assert("uptime"@.len() == 6 && "uptime"@[0] == 'u' && "uptime"@[1] == 'p' && "uptime"@[2] == 't' && "uptime"@[3] == 'i' && "uptime"@[4] == 'm' && "uptime"@[5] == 'e');
        reveal_strlit("jump");
        assert("jump"@.len() == 4 && "jump"@[0] == 'j' && "jump"@[1] == 'u' && "jump"@[2] == 'm' && "jump"@[3] == 'p');
        reveal_strlit("pick");
        assert("pick"@.len() == 4 && "pick"@[0] == 'p' && "pick"@[1] == 'i' && "pick"@[2] == 'c' && "pick"@[3] == 'k');
        reveal_strlit("get");
        assert("get"@.len() == 3 && "get"@[0] == 'g' && "get"@[1] == 'e' && "get"@[2] == 't');
        reveal_strlit("drop");
        assert("drop"@.len() == 4 && "drop"@[0] == 'd' && "drop"@[1] == 'r' && "drop"@[2] == 'o' && "drop"@[3] == 'p');
        reveal_strlit("remove");
        assert("remove"@.len() == 6 && "remove"@[0] == 'r' && "remove"@[1] == 'e' && "remove"@[2] == 'm' && "remove"@[3] == 'o' && "remove"@[4] == 'v' && "remove"@[5] == 'e');
        reveal_strlit("equip");
        assert("equip"@.len() == 5 && "equip"@[0] == 'e' && "equip"@[1] == 'q' && "equip"@[2] == 'u' && "equip"@[3] == 'i' && "equip"@[4] == 'p');
        reveal_strlit("examine");
        assert("examine"@.len() == 7 && "examine"@[0] == 'e' && "examine"@[1] == 'x' && "examine"@[2] == 'a' && "examine"@[3] == 'm' && "examine"@[4] == 'i' && "examine"@[5] == 'n' && "examine"@[6] == 'e');
        reveal_strlit("k");
        assert("k"@.len() == 1 && "k"@[0] == 'k');
        reveal_strlit("kill");
        assert("kill"@.len() == 4 && "kill"@[0] == 'k' && "kill"@[1] == 'i' && "kill"@[2] == 'l' && "kill"@[3] == 'l');
        reveal_strlit("say");
        assert("say"@.len() == 3 && "say"@[0] == 's' && "say"@[1] == 'a' && "say"@[2] == 'y');
        reveal_strlit("buy");
        assert("buy"@.len() == 3 && "buy"@[0] == 'b' && "buy"@[1] == 'u' && "buy"@[2] == 'y');
        reveal_strlit("sell");
        assert("sell"@.len() == 4 && "sell"@[0] == 's' && "sell"@[1] == 'e' && "sell"@[2] == 'l' && "sell"@[3] == 'l');
        reveal_strlit("hire");
        assert("hire"@.len() == 4 && "hire"@[0] == 'h' && "hire"@[1] == 'i' && "hire"@[2] == 'r' && "hire"@[3] == 'e');
        reveal_strlit("extract");
        assert("extract"@.len() == 7 && "extract"@[0] == 'e' && "extract"@[1] == 'x' && "extract"@[2] == 't' && "extract"@[3] == 'r' && "extract"@[4] == 'a' && "extract"@[5] == 'c' && "extract"@[6] == 't');
    }
    assert(first_word(line) == "equip"@ ==> main_command(line) == MainCommand::Equip) by {
        reveal_strlit("l");
        assert("l"@.len() == 1 && "l"@[0] == 'l');
        reveal_strlit("look");
        assert("look"@.len() == 4 && "look"@[0] == 'l' && "look"@[1] == 'o' && "look"@[2] == 'o' && "look"@[3] == 'k');
        reveal_strlit("n");
        assert("n"@.len() == 1 && "n"@[0] == 'n');
        reveal_strlit("s");
        assert("s"@.len() == 1 && "s"@[0] == 's');
        reveal_strlit("e");
        assert("e"@.len() == 1 && "e"@[0] == 'e');
        reveal_strlit("w");
        assert("w"@.len() == 1 && "w"@[0] == 'w');
        reveal_strlit("enter");
        assert("enter"@.len() == 5 && "enter"@[0] == 'e' && "enter"@[1] == 'n' && "enter"@[2] == 't' && "enter"@[3] == 'e' && "enter"@[4] == 'r');
        reveal_strlit("exit");
        assert("exit"@.len() == 4 && "exit"@[0] == 'e' && "exit"@[1] == 'x' && "exit"@[2] == 'i' && "exit"@[3] == 't');
        reveal_strlit("out");
        assert("out"@.len() == 3 && "out"@[0] == 'o' && "out"@[1] == 'u' && "out"@[2] == 't');
        reveal_strlit("rest");
        assert("rest"@.len() == 4 && "rest"@[0] == 'r' && "rest"@[1] == 'e' && "rest"@[2] == 's' && "rest"@[3] == 't');
        reveal_strlit("stand");
        assert("stand"@.len() == 5 && "stand"@[0] == 's' && "stand"@[1] == 't' && "stand"@[2] == 'a' && "stand"@[3] == 'n' && "stand"@[4] == 'd');
        reveal_strlit("stats");
        assert("stats"@.len() == 5 && "stats"@[0] == 's' && "stats"@[1] == 't' && "stats"@[2] == 'a' && "stats"@[3] == 't' && "stats"@[4] == 's');
        reveal_strlit("inv");
        assert("inv"@.len() == 3 && "inv"@[0] == 'i' && "inv"@[1] == 'n' && "inv"@[2] == 'v');
        reveal_strlit("score");
        assert("score"@.len() == 5 && "score"@[0] == 's' && "score"@[1] == 'c' && "score"@[2] == 'o' && "score"@[3] == 'r' && "score"@[4] == 'e');
        reveal_strlit("sm");
        assert("sm"@.len() == 2 && "sm"@[0] == 's' && "sm"@[1] == 'm');
        reveal_strlit("map");
        assert("map"@.len() == 3 && "map"@[0] == 'm' && "map"@[1] == 'a' && "map"@[2] == 'p');
        reveal_strlit("move");
        assert("move"@.len() == 4 && "move"@[0] == 'm' && "move"@[1] == 'o' && "move"@[2] == 'v' && "move"@[3] == 'e');
        reveal_strlit("land");
        assert("land"@.len() == 4 && "land"@[0] == 'l' && "land"@[1] == 'a' && "land"@[2] == 'n' && "land"@[3] == 'd');
        reveal_strlit("launch");
        assert("launch"@.len() == 6 && "launch"@[0] == 'l' && "launch"@[1] == 'a' && "launch"@[2] == 'u' && "launch"@[3] == 'n' && "launch"@[4] == 'c' && "launch"@[5] == 'h');
        reveal_strlit("admin");
        assert("admin"@.len() == 5 && "admin"@[0] == 'a' && "admin"@[1] == 'd' && "admin"@[2] == 'm' && "admin"@[3] == 'i' && "admin"@[4] == 'n');
        reveal_strlit("logout");
        assert("logout"@.len() == 6 && "logout"@[0] == 'l' && "logout"@[1] == 'o' && "logout"@[2] == 'g' && "logout"@[3] == 'o' && "logout"@[4] == 'u' && "logout"@[5] == 't');
        reveal_strlit("h");
        assert("h"@.len() == 1 && "h"@[0] == 'h');
        reveal_strlit("help");
        assert("help"@.len() == 4 && "help"@[0] == 'h' && "help"@[1] == 'e' && "help"@[2] == 'l' && "help"@[3] == 'p');
        reveal_strlit("uptime");
        assert("uptime"@.len() == 6 && "uptime"@[0] == 'u' && "uptime"@[1] == 'p' && "uptime"@[2] == 't' && "uptime"@[3] == 'i' && "uptime"@[4] == 'm' && "uptime"@[5] == 'e');
        reveal_strlit("jump");
        assert("jump"@.len() == 4 && "jump"@[0] == 'j' && "jump"@[1] == 'u' && "jump"@[2] == 'm' && "jump"@[3] == 'p');
        reveal_strlit("pick");
        assert("pick"@.len() == 4 && "pick"@[0] == 'p' && "pick"@[1] == 'i' && "pick"@[2] == 'c' && "pick"@[3] == 'k');
        reveal_strlit("get");
        assert("get"@.len() == 3 && "get"@[0] == 'g' && "get"@[1] == 'e' && "get"@[2] == 't');
        reveal_strlit("drop");
        assert("drop"@.len() == 4 && "drop"@[0] == 'd' && "drop"@[1] == 'r' && "drop"@[2] == 'o' && "drop"@[3] == 'p');
        reveal_strlit("remove");
        assert("remove"@.len() == 6 && "remove"@[0] == 'r' && "remove"@[1] == 'e' && "remove"@[2] == 'm' && "remove"@[3] == 'o' && "remove"@[4] == 'v' && "remove"@[5] == 'e');
        reveal_strlit("equip");
        assert("equip"@.len() == 5 && "equip"@[0] == 'e' && "equip"@[1] == 'q' && "equip"@[2] == 'u' && "equip"@[3] == 'i' && "equip"@[4] == 'p');
        reveal_strlit("examine");
        assert("examine"@.len() == 7 && "examine"@[0] == 'e' && "examine"@[1] == 'x' && "examine"@[2] == 'a' && "examine"@[3] == 'm' && "examine"@[4] == 'i' && "examine"@[5] == 'n' && "examine"@[6] == 'e');
        reveal_strlit("k");
        assert("k"@.len() == 1 && "k"@[0] == 'k');
        reveal_strlit("kill");
        assert("kill"@.len() == 4 && "kill"@[0] == 'k' && "kill"@[1] == 'i' && "kill"@[2] == 'l' && "kill"@[3] == 'l');
        reveal_strlit("say");
        assert("say"@.len() == 3 && "say"@[0] == 's' && "say"@[1] == 'a' && "say"@[2] == 'y');
        reveal_strlit("buy");
        assert("buy"@.len() == 3 && "buy"@[0] == 'b' && "buy"@[1] == 'u' && "buy"@[2] == 'y');
        reveal_strlit("sell");
        assert("sell"@.len() == 4 && "sell"@[0] == 's' && "sell"@[1] == 'e' && "sell"@[2] == 'l' && "sell"@[3] == 'l');
        reveal_strlit("hire");
        assert("hire"@.len() == 4 && "hire"@[0] == 'h' && "hire"@[1] == 'i' && "hire"@[2] == 'r' && "hire"@[3] == 'e');
        reveal_strlit("extract");
        assert("extract"@.len() == 7 && "extract"@[0] == 'e' && "extract"@[1] == 'x' && "extract"@[2] == 't' && "extract"@[3] == 'r' && "extract"@[4] == 'a' && "extract"@[5] == 'c' && "extract"@[6] == 't');
    }
    assert(first_word(line) == "examine"@ ==> main_command(line) == MainCommand::Examine) by {
        reveal_strlit("l");
        assert("l"@.len() == 1 && "l"@[0] == 'l');
        reveal_strlit("look");
        assert("look"@.len() == 4 && "look"@[0] == 'l' && "look"@[1] == 'o' && "look"@[2] == 'o' && "look"@[3] == 'k');
        reveal_strlit("n");
        assert("n"@.len() == 1 && "n"@[0] == 'n');
        reveal_strlit("s");
        assert("s"@.len() == 1 && "s"@[0] == 's');
        reveal_strlit("e");
        assert("e"@.len() == 1 && "e"@[0] == 'e');
        reveal_strlit("w");
        assert("w"@.len() == 1 && "w"@[0] == 'w');
        reveal_strlit("enter");
        assert("enter"@.len() == 5 && "enter"@[0] == 'e' && "enter"@[1] == 'n' && "enter"@[2] == 't' && "enter"@[3] == 'e' && "enter"@[4] == 'r');
        reveal_strlit("exit");
        assert("exit"@.len() == 4 && "exit"@[0] == 'e' && "exit"@[1] == 'x' && "exit"@[2] == 'i' && "exit"@[3] == 't');
        reveal_strlit("out");
        assert("out"@.len() == 3 && "out"@[0] == 'o' && "out"@[1] == 'u' && "out"@[2] == 't');
        reveal_strlit("rest");
        assert("rest"@.len() == 4 && "rest"@[0] == 'r' && "rest"@[1] == 'e' && "rest"@[2] == 's' && "rest"@[3] == 't');
        reveal_strlit("stand");
        assert("stand"@.len() == 5 && "stand"@[0] == 's' && "stand"@[1] == 't' && "stand"@[2] == 'a' && "stand"@[3] == 'n' && "stand"@[4] == 'd');
        reveal_strlit("stats");
        assert("stats"@.len() == 5 && "stats"@[0] == 's' && "stats"@[1] == 't' && "stats"@[2] == 'a' && "stats"@[3] == 't' && "stats"@[4] == 's');
        reveal_strlit("inv");
        assert("inv"@.len() == 3 && "inv"@[0] == 'i' && "inv"@[1] == 'n' && "inv"@[2] == 'v');
        reveal_strlit("score");
        assert("score"@.len() == 5 && "score"@[0] == 's' && "score"@[1] == 'c' && "score"@[2] == 'o' && "score"@[3] == 'r' && "score"@[4] == 'e');
        reveal_strlit("sm");
        assert("sm"@.len() == 2 && "sm"@[0] == 's' && "sm"@[1] == 'm');
        reveal_strlit("map");
        assert("map"@.len() == 3 && "map"@[0] == 'm' && "map"@[1] == 'a' && "map"@[2] == 'p');
        reveal_strlit("move");
        assert("move"@.len() == 4 && "move"@[0] == 'm' && "move"@[1] == 'o' && "move"@[2] == 'v' && "move"@[3] == 'e');
        reveal_strlit("land");
        assert("land"@.len() == 4 && "land"@[0] == 'l' && "land"@[1] == 'a' && "land"@[2] == 'n' && "land"@[3] == 'd');
        reveal_strlit("launch");
        assert("launch"@.len() == 6 && "launch"@[0] == 'l' && "launch"@[1] == 'a' && "launch"@[2] == 'u' && "launch"@[3] == 'n' && "launch"@[4] == 'c' && "launch"@[5] == 'h');
        reveal_strlit("admin");
        assert("admin"@.len() == 5 && "admin"@[0] == 'a' && "admin"@[1] == 'd' && "admin"@[2] == 'm' && "admin"@[3] == 'i' && "admin"@[4] == 'n');
        reveal_strlit("logout");
        assert("logout"@.len() == 6 && "logout"@[0] == 'l' && "logout"@[1] == 'o' && "logout"@[2] == 'g' && "logout"@[3] == 'o' && "logout"@[4] == 'u' && "logout"@[5] == 't');
        reveal_strlit("h");
        assert("h"@.len() == 1 && "h"@[0] == 'h');
        reveal_strlit("help");
        assert("help"@.len() == 4 && "help"@[0] == 'h' && "help"@[1] == 'e' && "help"@[2] == 'l' && "help"@[3] == 'p');
        reveal_strlit("uptime");
        assert("uptime"@.len() == 6 && "uptime"@[0] == 'u' && "uptime"@[1] == 'p' && "uptime"@[2] == 't' && "uptime"@[3] == 'i' && "uptime"@[4] == 'm' && "uptime"@[5] == 'e');
        reveal_strlit("jump");
        assert("jump"@.len() == 4 && "jump"@[0] == 'j' && "jump"@[1] == 'u' && "jump"@[2] == 'm' && "jump"@[3] == 'p');
        reveal_strlit("pick");
        assert("pick"@.len() == 4 && "pick"@[0] == 'p' && "pick"@[1] == 'i' && "pick"@[2] == 'c' && "pick"@[3] == 'k');
        reveal_strlit("get");
        assert("get"@.len() == 3 && "get"@[0] == 'g' && "get"@[1] == 'e' && "get"@[2] == 't');
        reveal_strlit("drop");
        assert("drop"@.len() == 4 && "drop"@[0] == 'd' && "drop"@[1] == 'r' && "drop"@[2] == 'o' && "drop"@[3] == 'p');
        reveal_strlit("remove");
        assert("remove"@.len() == 6 && "remove"@[0] == 'r' && "remove"@[1] == 'e' && "remove"@[2] == 'm' && "remove"@[3] == 'o' && "remove"@[4] == 'v' && "remove"@[5] == 'e');
        reveal_strlit("equip");
        assert("equip"@.len() == 5 && "equip"@[0] == 'e' && "equip"@[1] == 'q' && "equip"@[2] == 'u' && "equip"@[3] == 'i' && "equip"@[4] == 'p');
        reveal_strlit("examine");
        assert("examine"@.len() == 7 && "examine"@[0] == 'e' && "examine"@[1] == 'x' && "examine"@[2] == 'a' && "examine"@[3] == 'm' && "examine"@[4] == 'i' && "examine"@[5] == 'n' && "examine"@[6] == 'e');
        reveal_strlit("k");
        assert("k"@.len() == 1 && "k"@[0] == 'k');
        reveal_strlit("kill");
        assert("kill"@.len() == 4 && "kill"@[0] == 'k' && "kill"@[1] == 'i' && "kill"@[2] == 'l' && "kill"@[3] == 'l');
        reveal_strlit("say");
        assert("say"@.len() == 3 && "say"@[0] == 's' && "say"@[1] == 'a' && "say"@[2] == 'y');
        reveal_strlit("buy");
        assert("buy"@.len() == 3 && "buy"@[0] == 'b' && "buy"@[1] == 'u' && "buy"@[2] == 'y');
        reveal_strlit("sell");
        assert("sell"@.len() == 4 && "sell"@[0] == 's' && "sell"@[1] == 'e' && "sell"@[2] == 'l' && "sell"@[3] == 'l');
        reveal_strlit("hire");
        assert("hire"@.len() == 4 && "hire"@[0] == 'h' && "hire"@[1] == 'i' && "hire"@[2] == 'r' && "hire"@[3] == 'e');
        reveal_strlit("extract");
        assert("extract"@.len() == 7 && "extract"@[0] == 'e' && "extract"@[1] == 'x' && "extract"@[2] == 't' && "extract"@[3] == 'r' && "extract"@[4] == 'a' && "extract"@[5] == 'c' && "extract"@[6] == 't');
    }
    assert(first_word(line) == "k"@ ==> main_command(line) == MainCommand::Kill) by {
        reveal_strlit("l");
        assert("l"@.len() == 1 && "l"@[0] == 'l');
        reveal_strlit("look");
        assert("look"@.len() == 4 && "look"@[0] == 'l' && "look"@[1] == 'o' && "look"@[2] == 'o' && "look"@[3] == 'k');
        reveal_strlit("n");
        assert("n"@.len() == 1 && "n"@[0] == 'n');
        reveal_strlit("s");
        assert("s"@.len() == 1 && "s"@[0] == 's');
        reveal_strlit("e");
        assert("e"@.len() == 1 && "e"@[0] == 'e');
        reveal_strlit("w");
        assert("w"@.len() == 1 && "w"@[0] == 'w');
        reveal_strlit("enter");
        assert("enter"@.len() == 5 && "enter"@[0] == 'e' && "enter"@[1] == 'n' && "enter"@[2] == 't' && "enter"@[3] == 'e' && "enter"@[4] == 'r');
        reveal_strlit("exit");
        assert("exit"@.len() == 4 && "exit"@[0] == 'e' && "exit"@[1] == 'x' && "exit"@[2] == 'i' && "exit"@[3] == 't');
        reveal_strlit("out");
        assert("out"@.len() == 3 && "out"@[0] == 'o' && "out"@[1] == 'u' && "out"@[2] == 't');
        reveal_strlit("rest");
        assert("rest"@.len() == 4 && "rest"@[0] == 'r' && "rest"@[1] == 'e' && "rest"@[2] == 's' && "rest"@[3] == 't');
        reveal_strlit("stand");
        assert("stand"@.len() == 5 && "stand"@[0] == 's' && "stand"@[1] == 't' && "stand"@[2] == 'a' && "stand"@[3] == 'n' && "stand"@[4] == 'd');
        reveal_strlit("stats");
        assert("stats"@.len() == 5 && "stats"@[0] == 's' && "stats"@[1] == 't' && "stats"@[2] == 'a' && "stats"@[3] == 't' && "stats"@[4] == 's');
        reveal_strlit("inv");
        assert("inv"@.len() == 3 && "inv"@[0] == 'i' && "inv"@[1] == 'n' && "inv"@[2] == 'v');
        reveal_strlit("score");
        assert("score"@.len() == 5 && "score"@[0] == 's' && "score"@[1] == 'c' && "score"@[2] == 'o' && "score"@[3] == 'r' && "score"@[4] == 'e');
        reveal_strlit("sm");
        assert("sm"@.len() == 2 && "sm"@[0] == 's' && "sm"@[1] == 'm');
        reveal_strlit("map");
        assert("map"@.len() == 3 && "map"@[0] == 'm' && "map"@[1] == 'a' && "map"@[2] == 'p');
        reveal_strlit("move");
        assert("move"@.len() == 4 && "move"@[0] == 'm' && "move"@[1] == 'o' && "move"@[2] == 'v' && "move"@[3] == 'e');
        reveal_strlit("land");
        assert("land"@.len() == 4 && "land"@[0] == 'l' && "land"@[1] == 'a' && "land"@[2] == 'n' && "land"@[3] == 'd');
        reveal_strlit("launch");
        assert("launch"@.len() == 6 && "launch"@[0] == 'l' && "launch"@[1] == 'a' && "launch"@[2] == 'u' && "launch"@[3] == 'n' && "launch"@[4] == 'c' && "launch"@[5] == 'h');
        reveal_strlit("admin");
        assert("admin"@.len() == 5 && "admin"@[0] == 'a' && "admin"@[1] == 'd' && "admin"@[2] == 'm' && "admin"@[3] == 'i' && "admin"@[4] == 'n');
        reveal_strlit("logout");
        assert("logout"@.len() == 6 && "logout"@[0] == 'l' && "logout"@[1] == 'o' && "logout"@[2] == 'g' && "logout"@[3] == 'o' && "logout"@[4] == 'u' && "logout"@[5] == 't');
        reveal_strlit("h");
        assert("h"@.len() == 1 && "h"@[0] == 'h');
        reveal_strlit("help");
        assert("help"@.len() == 4 && "help"@[0] == 'h' && "help"@[1] == 'e' && "help"@[2] == 'l' && "help"@[3] == 'p');
        reveal_strlit("uptime");
        assert("uptime"@.len() == 6 && "uptime"@[0] == 'u' && "uptime"@[1] == 'p' && "uptime"@[2] == 't' && "uptime"@[3] == 'i' && "uptime"@[4] == 'm' && "uptime"@[5] == 'e');
        reveal_strlit("jump");
        assert("jump"@.len() == 4 && "jump"@[0] == 'j' && "jump"@[1] == 'u' && "jump"@[2] == 'm' && "jump"@[3] == 'p');
        reveal_strlit("pick");
        assert("pick"@.len() == 4 && "pick"@[0] == 'p' && "pick"@[1] == 'i' && "pick"@[2] == 'c' && "pick"@[3] == 'k');
        reveal_strlit("get");
        assert("get"@.len() == 3 && "get"@[0] == 'g' && "get"@[1] == 'e' && "get"@[2] == 't');
        reveal_strlit("drop");
        assert("drop"@.len() == 4 && "drop"@[0] == 'd' && "drop"@[1] == 'r' && "drop"@[2] == 'o' && "drop"@[3] == 'p');
        reveal_strlit("remove");
        assert("remove"@.len() == 6 && "remove"@[0] == 'r' && "remove"@[1] == 'e' && "remove"@[2] == 'm' && "remove"@[3] == 'o' && "remove"@[4] == 'v' && "remove"@[5] == 'e');
        reveal_strlit("equip");
        assert("equip"@.len() == 5 && "equip"@[0] == 'e' && "equip"@[1] == 'q' && "equip"@[2] == 'u' && "equip"@[3] == 'i' && "equip"@[4] == 'p');
        reveal_strlit("examine");
        assert("examine"@.len() == 7 && "examine"@[0] == 'e' && "examine"@[1] == 'x' && "examine"@[2] == 'a' && "examine"@[3] == 'm' && "examine"@[4] == 'i' && "examine"@[5] == 'n' && "examine"@[6] == 'e');
        reveal_strlit("k");
        assert("k"@.len() == 1 && "k"@[0] == 'k');
        reveal_strlit("kill");
        assert("kill"@.len() == 4 && "kill"@[0] == 'k' && "kill"@[1] == 'i' && "kill"@[2] == 'l' && "kill"@[3] == 'l');
        reveal_strlit("say");
        assert("say"@.len() == 3 && "say"@[0] == 's' && "say"@[1] == 'a' && "say"@[2] == 'y');
        reveal_strlit("buy");
        assert("buy"@.len() == 3 && "buy"@[0] == 'b' && "buy"@[1] == 'u' && "buy"@[2] == 'y');
        reveal_strlit("sell");
        assert("sell"@.len() == 4 && "sell"@[0] == 's' && "sell"@[1] == 'e' && "sell"@[2] == 'l' && "sell"@[3] == 'l');
        reveal_strlit("hire");
        assert("hire"@.len() == 4 && "hire"@[0] == 'h' && "hire"@[1] == 'i' && "hire"@[2] == 'r' && "hire"@[3] == 'e');
        reveal_strlit("extract");
        assert("extract"@.len() == 7 && "extract"@[0] == 'e' && "extract"@[1] == 'x' && "extract"@[2] == 't' && "extract"@[3] == 'r' && "extract"@[4] == 'a' && "extract"@[5] == 'c' && "extract"@[6] == 't');
    }
    assert(first_word(line) == "kill"@ ==> main_command(line) == MainCommand::Kill) by {
        reveal_strlit("l");
        assert("l"@.len() == 1 && "l"@[0] == 'l');
        reveal_strlit("look");
        assert("look"@.len() == 4 && "look"@[0] == 'l' && "look"@[1] == 'o' && "look"@[2] == 'o' && "look"@[3] == 'k');
        reveal_strlit("n");
        assert("n"@.len() == 1 && "n"@[0] == 'n');
        reveal_strlit("s");
        assert("s"@.len() == 1 && "s"@[0] == 's');
        reveal_strlit("e");
        assert("e"@.len() == 1 && "e"@[0] == 'e');
        reveal_strlit("w");
        assert("w"@.len() == 1 && "w"@[0] == 'w');
        reveal_strlit("enter");
        assert("enter"@.len() == 5 && "enter"@[0] == 'e' && "enter"@[1] == 'n' && "enter"@[2] == 't' && "enter"@[3] == 'e' && "enter"@[4] == 'r');
        reveal_strlit("exit");
        assert("exit"@.len() == 4 && "exit"@[0] == 'e' && "exit"@[1] == 'x' && "exit"@[2] == 'i' && "exit"@[3] == 't');
        reveal_strlit("out");
        assert("out"@.len() == 3 && "out"@[0] == 'o' && "out"@[1] == 'u' && "out"@[2] == 't');
        reveal_strlit("rest");
        assert("rest"@.len() == 4 && "rest"@[0] == 'r' && "rest"@[1] == 'e' && "rest"@[2] == 's' && "rest"@[3] == 't');
        reveal_strlit("stand");
        assert("stand"@.len() == 5 && "stand"@[0] == 's' && "stand"@[1] == 't' && "stand"@[2] == 'a' && "stand"@[3] == 'n' && "stand"@[4] == 'd');
        reveal_strlit("stats");
        assert("stats"@.len() == 5 && "stats"@[0] == 's' && "stats"@[1] == 't' && "stats"@[2] == 'a' && "stats"@[3] == 't' && "stats"@[4] == 's');
        reveal_strlit("inv");
        assert("inv"@.len() == 3 && "inv"@[0] == 'i' && "inv"@[1] == 'n' && "inv"@[2] == 'v');
        reveal_strlit("score");
        assert("score"@.len() == 5 && "score"@[0] == 's' && "score"@[1] == 'c' && "score"@[2] == 'o' && "score"@[3] == 'r' && "score"@[4] == 'e');
        reveal_strlit("sm");
        assert("sm"@.len() == 2 && "sm"@[0] == 's' && "sm"@[1] == 'm');
        reveal_strlit("map");
        assert("map"@.len() == 3 && "map"@[0] == 'm' && "map"@[1] == 'a' && "map"@[2] == 'p');
        reveal_strlit("move");
        assert("move"@.len() == 4 && "move"@[0] == 'm' && "move"@[1] == 'o' && "move"@[2] == 'v' && "move"@[3] == 'e');
        reveal_strlit("land");
        assert("land"@.len() == 4 && "land"@[0] == 'l' && "land"@[1] == 'a' && "land"@[2] == 'n' && "land"@[3] == 'd');
        reveal_strlit("launch");
        assert("launch"@.len() == 6 && "launch"@[0] == 'l' && "launch"@[1] == 'a' && "launch"@[2] == 'u' && "launch"@[3] == 'n' && "launch"@[4] == 'c' && "launch"@[5] == 'h');
        reveal_strlit("admin");
        assert("admin"@.len() == 5 && "admin"@[0] == 'a' && "admin"@[1] == 'd' && "admin"@[2] == 'm' && "admin"@[3] == 'i' && "admin"@[4] == 'n');
        reveal_strlit("logout");
        assert("logout"@.len() == 6 && "logout"@[0] == 'l' && "logout"@[1] == 'o' && "logout"@[2] == 'g' && "logout"@[3] == 'o' && "logout"@[4] == 'u' && "logout"@[5] == 't');
        reveal_strlit("h");
        assert("h"@.len() == 1 && "h"@[0] == 'h');
        reveal_strlit("help");
        assert("help"@.len() == 4 && "help"@[0] == 'h' && "help"@[1] == 'e' && "help"@[2] == 'l' && "help"@[3] == 'p');
        reveal_strlit("uptime");
        assert("uptime"@.len() == 6 && "uptime"@[0] == 'u' && "uptime"@[1] == 'p' && "uptime"@[2] == 't' && "uptime"@[3] == 'i' && "uptime"@[4] == 'm' && "uptime"@[5] == 'e');
        reveal_strlit("jump");
        assert("jump"@.len() == 4 && "jump"@[0] == 'j' && "jump"@[1] == 'u' && "jump"@[2] == 'm' && "jump"@[3] == 'p');
        reveal_strlit("pick");
        assert("pick"@.len() == 4 && "pick"@[0] == 'p' && "pick"@[1] == 'i' && "pick"@[2] == 'c' && "pick"@[3] == 'k');
        reveal_strlit("get");
        assert("get"@.len() == 3 && "get"@[0] == 'g' && "get"@[1] == 'e' && "get"@[2] == 't');
        reveal_strlit("drop");
        assert("drop"@.len() == 4 && "drop"@[0] == 'd' && "drop"@[1] == 'r' && "drop"@[2] == 'o' && "drop"@[3] == 'p');
        reveal_strlit("remove");
        assert("remove"@.len() == 6 && "remove"@[0] == 'r' && "remove"@[1] == 'e' && "remove"@[2] == 'm' && "remove"@[3] == 'o' && "remove"@[4] == 'v' && "remove"@[5] == 'e');
        reveal_strlit("equip");
        assert("equip"@.len() == 5 && "equip"@[0] == 'e' && "equip"@[1] == 'q' && "equip"@[2] == 'u' && "equip"@[3] == 'i' && "equip"@[4] == 'p');
        reveal_strlit("examine");
        assert("examine"@.len() == 7 && "examine"@[0] == 'e' && "examine"@[1] == 'x' && "examine"@[2] == 'a' && "examine"@[3] == 'm' && "examine"@[4] == 'i' && "examine"@[5] == 'n' && "examine"@[6] == 'e');
        reveal_strlit("k");
        assert("k"@.len() == 1 && "k"@[0] == 'k');
        reveal_strlit("kill");
        assert("kill"@.len() == 4 && "kill"@[0] == 'k' && "kill"@[1] == 'i' && "kill"@[2] == 'l' && "kill"@[3] == 'l');
        reveal_strlit("say");
        assert("say"@.len() == 3 && "say"@[0] == 's' && "say"@[1] == 'a' && "say"@[2] == 'y');
        reveal_strlit("buy");
        assert("buy"@.len() == 3 && "buy"@[0] == 'b' && "buy"@[1] == 'u' && "buy"@[2] == 'y');
        reveal_strlit("sell");
        assert("sell"@.len() == 4 && "sell"@[0] == 's' && "sell"@[1] == 'e' && "sell"@[2] == 'l' && "sell"@[3] == 'l');
        reveal_strlit("hire");
        assert("hire"@.len() == 4 && "hire"@[0] == 'h' && "hire"@[1] == 'i' && "hire"@[2] == 'r' && "hire"@[3] == 'e');
        reveal_strlit("extract");
        assert("extract"@.len() == 7 && "extract"@[0] == 'e' && "extract"@[1] == 'x' && "extract"@[2] == 't' && "extract"@[3] == 'r' && "extract"@[4] == 'a' && "extract"@[5] == 'c' && "extract"@[6] == 't');
    }
    assert(first_word(line) == "say"@ ==> main_command(line) == MainCommand::Say) by {
        reveal_strlit("l");
        assert("l"@.len() == 1 && "l"@[0] == 'l');
        reveal_strlit("look");
        assert("look"@.len() == 4 && "look"@[0] == 'l' && "look"@[1] == 'o' && "look"@[2] == 'o' && "look"@[3] == 'k');
        reveal_strlit("n");
        assert("n"@.len() == 1 && "n"@[0] == 'n');
        reveal_strlit("s");
        assert("s"@.len() == 1 && "s"@[0] == 's');
        reveal_strlit("e");
        assert("e"@.len() == 1 && "e"@[0] == 'e');
        reveal_strlit("w");
        assert("w"@.len() == 1 && "w"@[0] == 'w');
        reveal_strlit("enter");
        assert("enter"@.len() == 5 && "enter"@[0] == 'e' && "enter"@[1] == 'n' && "enter"@[2] == 't' && "enter"@[3] == 'e' && "enter"@[4] == 'r');
        reveal_strlit("exit");
        assert("exit"@.len() == 4 && "exit"@[0] == 'e' && "exit"@[1] == 'x' && "exit"@[2] == 'i' && "exit"@[3] == 't');
        reveal_strlit("out");
        assert("out"@.len() == 3 && "out"@[0] == 'o' && "out"@[1] == 'u' && "out"@[2] == 't');
        reveal_strlit("rest");
        assert("rest"@.len() == 4 && "rest"@[0] == 'r' && "rest"@[1] == 'e' && "rest"@[2] == 's' && "rest"@[3] == 't');
        reveal_strlit("stand");
        assert("stand"@.len() == 5 && "stand"@[0] == 's' && "stand"@[1] == 't' && "stand"@[2] == 'a' && "stand"@[3] == 'n' && "stand"@[4] == 'd');
        reveal_strlit("stats");
        assert("stats"@.len() == 5 && "stats"@[0] == 's' && "stats"@[1] == 't' && "stats"@[2] == 'a' && "stats"@[3] == 't' && "stats"@[4] == 's');
        reveal_strlit("inv");
        assert("inv"@.len() == 3 && "inv"@[0] == 'i' && "inv"@[1] == 'n' && "inv"@[2] == 'v');
        reveal_strlit("score");
        assert("score"@.len() == 5 && "score"@[0] == 's' && "score"@[1] == 'c' && "score"@[2] == 'o' && "score"@[3] == 'r' && "score"@[4] == 'e');
        reveal_strlit("sm");
        assert("sm"@.len() == 2 && "sm"@[0] == 's' && "sm"@[1] == 'm');
        reveal_strlit("map");
        assert("map"@.len() == 3 && "map"@[0] == 'm' && "map"@[1] == 'a' && "map"@[2] == 'p');
        reveal_strlit("move");
        assert("move"@.len() == 4 && "move"@[0] == 'm' && "move"@[1] == 'o' && "move"@[2] == 'v' && "move"@[3] == 'e');
        reveal_strlit("land");
        assert("land"@.len() == 4 && "land"@[0] == 'l' && "land"@[1] == 'a' && "land"@[2] == 'n' && "land"@[3] == 'd');
        reveal_strlit("launch");
        assert("launch"@.len() == 6 && "launch"@[0] == 'l' && "launch"@[1] == 'a' && "launch"@[2] == 'u' && "launch"@[3] == 'n' && "launch"@[4] == 'c' && "launch"@[5] == 'h');
        reveal_strlit("admin");
        assert("admin"@.len() == 5 && "admin"@[0] == 'a' && "admin"@[1] == 'd' && "admin"@[2] == 'm' && "admin"@[3] == 'i' && "admin"@[4] == 'n');
        reveal_strlit("logout");
        assert("logout"@.len() == 6 && "logout"@[0] == 'l' && "logout"@[1] == 'o' && "logout"@[2] == 'g' && "logout"@[3] == 'o' && "logout"@[4] == 'u' && "logout"@[5] == 't');
        reveal_strlit("h");
        assert("h"@.len() == 1 && "h"@[0] == 'h');
        reveal_strlit("help");
        assert("help"@.len() == 4 && "help"@[0] == 'h' && "help"@[1] == 'e' && "help"@[2] == 'l' && "help"@[3] == 'p');
        reveal_strlit("uptime");
        assert("uptime"@.len() == 6 && "uptime"@[0] == 'u' && "uptime"@[1] == 'p' && "uptime"@[2] == 't' && "uptime"@[3] == 'i' && "uptime"@[4] == 'm' && "uptime"@[5] == 'e');
        reveal_strlit("jump");
        assert("jump"@.len() == 4 && "jump"@[0] == 'j' && "jump"@[1] == 'u' && "jump"@[2] == 'm' && "jump"@[3] == 'p');
        reveal_strlit("pick");
        assert("pick"@.len() == 4 && "pick"@[0] == 'p' && "pick"@[1] == 'i' && "pick"@[2] == 'c' && "pick"@[3] == 'k');
        reveal_strlit("get");
        assert("get"@.len() == 3 && "get"@[0] == 'g' && "get"@[1] == 'e' && "get"@[2] == 't');
        reveal_strlit("drop");
        assert("drop"@.len() == 4 && "drop"@[0] == 'd' && "drop"@[1] == 'r' && "drop"@[2] == 'o' && "drop"@[3] == 'p');
        reveal_strlit("remove");
        assert("remove"@.len() == 6 && "remove"@[0] == 'r' && "remove"@[1] == 'e' && "remove"@[2] == 'm' && "remove"@[3] == 'o' && "remove"@[4] == 'v' && "remove"@[5] == 'e');
        reveal_strlit("equip");
        assert("equip"@.len() == 5 && "equip"@[0] == 'e' && "equip"@[1] == 'q' && "equip"@[2] == 'u' && "equip"@[3] == 'i' && "equip"@[4] == 'p');
        reveal_strlit("examine");
        assert("examine"@.len() == 7 && "examine"@[0] == 'e' && "examine"@[1] == 'x' && "examine"@[2] == 'a' && "examine"@[3] == 'm' && "examine"@[4] == 'i' && "examine"@[5] == 'n' && "examine"@[6] == 'e');
        reveal_strlit("k");
        assert("k"@.len() == 1 && "k"@[0] == 'k');
        reveal_strlit("kill");
        assert("kill"@.len() == 4 && "kill"@[0] == 'k' && "kill"@[1] == 'i' && "kill"@[2] == 'l' && "kill"@[3] == 'l');
        reveal_strlit("say");
        assert("say"@.len() == 3 && "say"@[0] == 's' && "say"@[1] == 'a' && "say"@[2] == 'y');
        reveal_strlit("buy");
        assert("buy"@.len() == 3 && "buy"@[0] == 'b' && "buy"@[1] == 'u' && "buy"@[2] == 'y');
        reveal_strlit("sell");
        assert("sell"@.len() == 4 && "sell"@[0] == 's' && "sell"@[1] == 'e' && "sell"@[2] == 'l' && "sell"@[3] == 'l');
        reveal_strlit("hire");
        assert("hire"@.len() == 4 && "hire"@[0] == 'h' && "hire"@[1] == 'i' && "hire"@[2] == 'r' && "hire"@[3] == 'e');
        reveal_strlit("extract");
        assert("extract"@.len() == 7 && "extract"@[0] == 'e' && "extract"@[1] == 'x' && "extract"@[2] == 't' && "extract"@[3] == 'r' && "extract"@[4] == 'a' && "extract"@[5] == 'c' && "extract"@[6] == 't');
    }
    assert(first_word(line) == "buy"@ ==> main_command(line) == MainCommand::Buy) by {
        reveal_strlit("l");
        assert("l"@.len() == 1 && "l"@[0] == 'l');
        reveal_strlit("look");
        assert("look"@.len() == 4 && "look"@[0] == 'l' && "look"@[1] == 'o' && "look"@[2] == 'o' && "look"@[3] == 'k');
        reveal_strlit("n");
        assert("n"@.len() == 1 && "n"@[0] == 'n');
        reveal_strlit("s");
        assert("s"@.len() == 1 && "s"@[0] == 's');
        reveal_strlit("e");
        assert("e"@.len() == 1 && "e"@[0] == 'e');
        reveal_strlit("w");
        assert("w"@.len() == 1 && "w"@[0] == 'w');
        reveal_strlit("enter");
        assert("enter"@.len() == 5 && "enter"@[0] == 'e' && "enter"@[1] == 'n' && "enter"@[2] == 't' && "enter"@[3] == 'e' && "enter"@[4] == 'r');
        reveal_strlit("exit");
        assert("exit"@.len() == 4 && "exit"@[0] == 'e' && "exit"@[1] == 'x' && "exit"@[2] == 'i' && "exit"@[3] == 't');
        reveal_strlit("out");
        assert("out"@.len() == 3 && "out"@[0] == 'o' && "out"@[1] == 'u' && "out"@[2] == 't');
        reveal_strlit("rest");
        assert("rest"@.len() == 4 && "rest"@[0] == 'r' && "rest"@[1] == 'e' && "rest"@[2] == 's' && "rest"@[3] == 't');
        reveal_strlit("stand");
        assert("stand"@.len() == 5 && "stand"@[0] == 's' && "stand"@[1] == 't' && "stand"@[2] == 'a' && "stand"@[3] == 'n' && "stand"@[4] == 'd');
        reveal_strlit("stats");
        assert("stats"@.len() == 5 && "stats"@[0] == 's' && "stats"@[1] == 't' && "stats"@[2] == 'a' && "stats"@[3] == 't' && "stats"@[4] == 's');
        reveal_strlit("inv");
        assert("inv"@.len() == 3 && "inv"@[0] == 'i' && "inv"@[1] == 'n' && "inv"@[2] == 'v');
        reveal_strlit("score");
        assert("score"@.len() == 5 && "score"@[0] == 's' && "score"@[1] == 'c' && "score"@[2] == 'o' && "score"@[3] == 'r' && "score"@[4] == 'e');
        reveal_strlit("sm");
        assert("sm"@.len() == 2 && "sm"@[0] == 's' && "sm"@[1] == 'm');
        reveal_strlit("map");
        assert("map"@.len() == 3 && "map"@[0] == 'm' && "map"@[1] == 'a' && "map"@[2] == 'p');
        reveal_strlit("move");
        assert("move"@.len() == 4 && "move"@[0] == 'm' && "move"@[1] == 'o' && "move"@[2] == 'v' && "move"@[3] == 'e');
        reveal_strlit("land");
        assert("land"@.len() == 4 && "land"@[0] == 'l' && "land"@[1] == 'a' && "land"@[2] == 'n' && "land"@[3] == 'd');
        reveal_strlit("launch");
        assert("launch"@.len() == 6 && "launch"@[0] == 'l' && "launch"@[1] == 'a' && "launch"@[2] == 'u' && "launch"@[3] == 'n' && "launch"@[4] == 'c' && "launch"@[5] == 'h');
        reveal_strlit("admin");
        assert("admin"@.len() == 5 && "admin"@[0] == 'a' && "admin"@[1] == 'd' && "admin"@[2] == 'm' && "admin"@[3] == 'i' && "admin"@[4] == 'n');
        reveal_strlit("logout");
        assert("logout"@.len() == 6 && "logout"@[0] == 'l' && "logout"@[1] == 'o' && "logout"@[2] == 'g' && "logout"@[3] == 'o' && "logout"@[4] == 'u' && "logout"@[5] == 't');
        reveal_strlit("h");
        assert("h"@.len() == 1 && "h"@[0] == 'h');
        reveal_strlit("help");
        assert("help"@.len() == 4 && "help"@[0] == 'h' && "help"@[1] == 'e' && "help"@[2] == 'l' && "help"@[3] == 'p');
        reveal_strlit("uptime");
        assert("uptime"@.len() == 6 && "uptime"@[0] == 'u' && "uptime"@[1] == 'p' && "uptime"@[2] == 't' && "uptime"@[3] == 'i' && "uptime"@[4] == 'm' && "uptime"@[5] == 'e');
        reveal_strlit("jump");
        assert("jump"@.len() == 4 && "jump"@[0] == 'j' && "jump"@[1] == 'u' && "jump"@[2] == 'm' && "jump"@[3] == 'p');
        reveal_strlit("pick");
        assert("pick"@.len() == 4 && "pick"@[0] == 'p' && "pick"@[1] == 'i' && "pick"@[2] == 'c' && "pick"@[3] == 'k');
        reveal_strlit("get");
        assert("get"@.len() == 3 && "get"@[0] == 'g' && "get"@[1] == 'e' && "get"@[2] == 't');
        reveal_strlit("drop");
        assert("drop"@.len() == 4 && "drop"@[0] == 'd' && "drop"@[1] == 'r' && "drop"@[2] == 'o' && "drop"@[3] == 'p');
        reveal_strlit("remove");
        assert("remove"@.len() == 6 && "remove"@[0] == 'r' && "remove"@[1] == 'e' && "remove"@[2] == 'm' && "remove"@[3] == 'o' && "remove"@[4] == 'v' && "remove"@[5] == 'e');
        reveal_strlit("equip");
        assert("equip"@.len() == 5 && "equip"@[0] == 'e' && "equip"@[1] == 'q' && "equip"@[2] == 'u' && "equip"@[3] == 'i' && "equip"@[4] == 'p');
        reveal_strlit("examine");
        assert("examine"@.len() == 7 && "examine"@[0] == 'e' && "examine"@[1] == 'x' && "examine"@[2] == 'a' && "examine"@[3] == 'm' && "examine"@[4] == 'i' && "examine"@[5] == 'n' && "examine"@[6] == 'e');
        reveal_strlit("k");
        assert("k"@.len() == 1 && "k"@[0] == 'k');
        reveal_strlit("kill");
        assert("kill"@.len() == 4 && "kill"@[0] == 'k' && "kill"@[1] == 'i' && "kill"@[2] == 'l' && "kill"@[3] == 'l');
        reveal_strlit("say");
        assert("say"@.len() == 3 && "say"@[0] == 's' && "say"@[1] == 'a' && "say"@[2] == 'y');
        reveal_strlit("buy");
        assert("buy"@.len() == 3 && "buy"@[0] == 'b' && "buy"@[1] == 'u' && "buy"@[2] == 'y');
        reveal_strlit("sell");
        assert("sell"@.len() == 4 && "sell"@[0] == 's' && "sell"@[1] == 'e' && "sell"@[2] == 'l' && "sell"@[3] == 'l');
        reveal_strlit("hire");
        assert("hire"@.len() == 4 && "hire"@[0] == 'h' && "hire"@[1] == 'i' && "hire"@[2] == 'r' && "hire"@[3] == 'e');
        reveal_strlit("extract");
        assert("extract"@.len() == 7 && "extract"@[0] == 'e' && "extract"@[1] == 'x' && "extract"@[2] == 't' && "extract"@[3] == 'r' && "extract"@[4] == 'a' && "extract"@[5] == 'c' && "extract"@[6] == 't');
    }
    assert(first_word(line) == "sell"@ ==> main_command(line) == MainCommand::Sell) by {
        reveal_strlit("l");
        assert("l"@.len() == 1 && "l"@[0] == 'l');
        reveal_strlit("look");
        assert("look"@.len() == 4 && "look"@[0] == 'l' && "look"@[1] == 'o' && "look"@[2] == 'o' && "look"@[3] == 'k');
        reveal_strlit("n");
        assert("n"@.len() == 1 && "n"@[0] == 'n');
        reveal_strlit("s");
        assert("s"@.len() == 1 && "s"@[0] == 's');
        reveal_strlit("e");
        assert("e"@.len() == 1 && "e"@[0] == 'e');
        reveal_strlit("w");
        assert("w"@.len() == 1 && "w"@[0] == 'w');
        reveal_strlit("enter");
        assert("enter"@.len() == 5 && "enter"@[0] == 'e' && "enter"@[1] == 'n' && "enter"@[2] == 't' && "enter"@[3] == 'e' && "enter"@[4] == 'r');
        reveal_strlit("exit");
        assert("exit"@.len() == 4 && "exit"@[0] == 'e' && "exit"@[1] == 'x' && "exit"@[2] == 'i' && "exit"@[3] == 't');
        reveal_strlit("out");
        assert("out"@.len() == 3 && "out"@[0] == 'o' && "out"@[1] == 'u' && "out"@[2] == 't');
        reveal_strlit("rest");
        assert("rest"@.len() == 4 && "rest"@[0] == 'r' && "rest"@[1] == 'e' && "rest"@[2] == 's' && "rest"@[3] == 't');
        reveal_strlit("stand");
        assert("stand"@.len() == 5 && "stand"@[0] == 's' && "stand"@[1] == 't' && "stand"@[2] == 'a' && "stand"@[3] == 'n' && "stand"@[4] == 'd');
        reveal_strlit("stats");
        assert("stats"@.len() == 5 && "stats"@[0] == 's' && "stats"@[1] == 't' && "stats"@[2] == 'a' && "stats"@[3] == 't' && "stats"@[4] == 's');
        reveal_strlit("inv");
        assert("inv"@.len() == 3 && "inv"@[0] == 'i' && "inv"@[1] == 'n' && "inv"@[2] == 'v');
        reveal_strlit("score");
        assert("score"@.len() == 5 && "score"@[0] == 's' && "score"@[1] == 'c' && "score"@[2] == 'o' && "score"@[3] == 'r' && "score"@[4] == 'e');
        reveal_strlit("sm");
        assert("sm"@.len() == 2 && "sm"@[0] == 's' && "sm"@[1] == 'm');
        reveal_strlit("map");
        assert("map"@.len() == 3 && "map"@[0] == 'm' && "map"@[1] == 'a' && "map"@[2] == 'p');
        reveal_strlit("move");
        assert("move"@.len() == 4 && "move"@[0] == 'm' && "move"@[1] == 'o' && "move"@[2] == 'v' && "move"@[3] == 'e');
        reveal_strlit("land");
        assert("land"@.len() == 4 && "land"@[0] == 'l' && "land"@[1] == 'a' && "land"@[2] == 'n' && "land"@[3] == 'd');
        reveal_strlit("launch");
        assert("launch"@.len() == 6 && "launch"@[0] == 'l' && "launch"@[1] == 'a' && "launch"@[2] == 'u' && "launch"@[3] == 'n' && "launch"@[4] == 'c' && "launch"@[5] == 'h');
        reveal_strlit("admin");
        assert("admin"@.len() == 5 && "admin"@[0] == 'a' && "admin"@[1] == 'd' && "admin"@[2] == 'm' && "admin"@[3] == 'i' && "admin"@[4] == 'n');
        reveal_strlit("logout");
        assert("logout"@.len() == 6 && "logout"@[0] == 'l' && "logout"@[1] == 'o' && "logout"@[2] == 'g' && "logout"@[3] == 'o' && "logout"@[4] == 'u' && "logout"@[5] == 't');
        reveal_strlit("h");
        assert("h"@.len() == 1 && "h"@[0] == 'h');
        reveal_strlit("help");
        assert("help"@.len() == 4 && "help"@[0] == 'h' && "help"@[1] == 'e' && "help"@[2] == 'l' && "help"@[3] == 'p');
        reveal_strlit("uptime");
        assert("uptime"@.len() == 6 && "uptime"@[0] == 'u' && "uptime"@[1] == 'p' && "uptime"@[2] == 't' && "uptime"@[3] == 'i' && "uptime"@[4] == 'm' && "uptime"@[5] == 'e');
        reveal_strlit("jump");
        assert("jump"@.len() == 4 && "jump"@[0] == 'j' && "jump"@[1] == 'u' && "jump"@[2] == 'm' && "jump"@[3] == 'p');
        reveal_strlit("pick");
        assert("pick"@.len() == 4 && "pick"@[0] == 'p' && "pick"@[1] == 'i' && "pick"@[2] == 'c' && "pick"@[3] == 'k');
        reveal_strlit("get");
        assert("get"@.len() == 3 && "get"@[0] == 'g' && "get"@[1] == 'e' && "get"@[2] == 't');
        reveal_strlit("drop");
        assert("drop"@.len() == 4 && "drop"@[0] == 'd' && "drop"@[1] == 'r' && "drop"@[2] == 'o' && "drop"@[3] == 'p');
        reveal_strlit("remove");
        assert("remove"@.len() == 6 && "remove"@[0] == 'r' && "remove"@[1] == 'e' && "remove"@[2] == 'm' && "remove"@[3] == 'o' && "remove"@[4] == 'v' && "remove"@[5] == 'e');
        reveal_strlit("equip");
        assert("equip"@.len() == 5 && "equip"@[0] == 'e' && "equip"@[1] == 'q' && "equip"@[2] == 'u' && "equip"@[3] == 'i' && "equip"@[4] == 'p');
        reveal_strlit("examine");
        assert("examine"@.len() == 7 && "examine"@[0] == 'e' && "examine"@[1] == 'x' && "examine"@[2] == 'a' && "examine"@[3] == 'm' && "examine"@[4] == 'i' && "examine"@[5] == 'n' && "examine"@[6] == 'e');
        reveal_strlit("k");
        assert("k"@.len() == 1 && "k"@[0] == 'k');
        reveal_strlit("kill");
        assert("kill"@.len() == 4 && "kill"@[0] == 'k' && "kill"@[1] == 'i' && "kill"@[2] == 'l' && "kill"@[3] == 'l');
        reveal_strlit("say");
        assert("say"@.len() == 3 && "say"@[0] == 's' && "say"@[1] == 'a' && "say"@[2] == 'y');
        reveal_strlit("buy");
        assert("buy"@.len() == 3 && "buy"@[0] == 'b' && "buy"@[1] == 'u' && "buy"@[2] == 'y');
        reveal_strlit("sell");
        assert("sell"@.len() == 4 && "sell"@[0] == 's' && "sell"@[1] == 'e' && "sell"@[2] == 'l' && "sell"@[3] == 'l');
        reveal_strlit("hire");
        assert("hire"@.len() == 4 && "hire"@[0] == 'h' && "hire"@[1] == 'i' && "hire"@[2] == 'r' && "hire"@[3] == 'e');
        reveal_strlit("extract");
        assert("extract"@.len() == 7 && "extract"@[0] == 'e' && "extract"@[1] == 'x' && "extract"@[2] == 't' && "extract"@[3] == 'r' && "extract"@[4] == 'a' && "extract"@[5] == 'c' && "extract"@[6] == 't');
    }
    assert(first_word(line) == "hire"@ ==> main_command(line) == MainCommand::Hire) by {
        reveal_strlit("l");
        assert("l"@.len() == 1 && "l"@[0] == 'l');
        reveal_strlit("look");
        assert("look"@.len() == 4 && "look"@[0] == 'l' && "look"@[1] == 'o' && "look"@[2] == 'o' && "look"@[3] == 'k');
        reveal_strlit("n");
        assert("n"@.len() == 1 && "n"@[0] == 'n');
        reveal_strlit("s");
        assert("s"@.len() == 1 && "s"@[0] == 's');
        reveal_strlit("e");
        assert("e"@.len() == 1 && "e"@[0] == 'e');
        reveal_strlit("w");
        assert("w"@.len() == 1 && "w"@[0] == 'w');
        reveal_strlit("enter");
        assert("enter"@.len() == 5 && "enter"@[0] == 'e' && "enter"@[1] == 'n' && "enter"@[2] == 't' && "enter"@[3] == 'e' && "enter"@[4] == 'r');
        reveal_strlit("exit");
        assert("exit"@.len() == 4 && "exit"@[0] == 'e' && "exit"@[1] == 'x' && "exit"@[2] == 'i' && "exit"@[3] == 't');
        reveal_strlit("out");
        assert("out"@.len() == 3 && "out"@[0] == 'o' && "out"@[1] == 'u' && "out"@[2] == 't');
        reveal_strlit("rest");
        assert("rest"@.len() == 4 && "rest"@[0] == 'r' && "rest"@[1] == 'e' && "rest"@[2] == 's' && "rest"@[3] == 't');
        reveal_strlit("stand");
        assert("stand"@.len() == 5 && "stand"@[0] == 's' && "stand"@[1] == 't' && "stand"@[2] == 'a' && "stand"@[3] == 'n' && "stand"@[4] == 'd');
        reveal_strlit("stats");
        assert("stats"@.len() == 5 && "stats"@[0] == 's' && "stats"@[1] == 't' && "stats"@[2] == 'a' && "stats"@[3] == 't' && "stats"@[4] == 's');
        reveal_strlit("inv");
        assert("inv"@.len() == 3 && "inv"@[0] == 'i' && "inv"@[1] == 'n' && "inv"@[2] == 'v');
        reveal_strlit("score");
        assert("score"@.len() == 5 && "score"@[0] == 's' && "score"@[1] == 'c' && "score"@[2] == 'o' && "score"@[3] == 'r' && "score"@[4] == 'e');
        reveal_strlit("sm");
        assert("sm"@.len() == 2 && "sm"@[0] == 's' && "sm"@[1] == 'm');
        reveal_strlit("map");
        assert("map"@.len() == 3 && "map"@[0] == 'm' && "map"@[1] == 'a' && "map"@[2] == 'p');
        reveal_strlit("move");
        assert("move"@.len() == 4 && "move"@[0] == 'm' && "move"@[1] == 'o' && "move"@[2] == 'v' && "move"@[3] == 'e');
        reveal_strlit("land");
        assert("land"@.len() == 4 && "land"@[0] == 'l' && "land"@[1] == 'a' && "land"@[2] == 'n' && "land"@[3] == 'd');
        reveal_strlit("launch");
        assert("launch"@.len() == 6 && "launch"@[0] == 'l' && "launch"@[1] == 'a' && "launch"@[2] == 'u' && "launch"@[3] == 'n' && "launch"@[4] == 'c' && "launch"@[5] == 'h');
        reveal_strlit("admin");
        assert("admin"@.len() == 5 && "admin"@[0] == 'a' && "admin"@[1] == 'd' && "admin"@[2] == 'm' && "admin"@[3] == 'i' && "admin"@[4] == 'n');
        reveal_strlit("logout");
        assert("logout"@.len() == 6 && "logout"@[0] == 'l' && "logout"@[1] == 'o' && "logout"@[2] == 'g' && "logout"@[3] == 'o' && "logout"@[4] == 'u' && "logout"@[5] == 't');
        reveal_strlit("h");
        assert("h"@.len() == 1 && "h"@[0] == 'h');
        reveal_strlit("help");
        assert("help"@.len() == 4 && "help"@[0] == 'h' && "help"@[1] == 'e' && "help"@[2] == 'l' && "help"@[3] == 'p');
        reveal_strlit("uptime");
        assert("uptime"@.len() == 6 && "uptime"@[0] == 'u' && "uptime"@[1] == 'p' && "uptime"@[2] == 't' && "uptime"@[3] == 'i' && "uptime"@[4] == 'm' && "uptime"@[5] == 'e');
        reveal_strlit("jump");
        assert("jump"@.len() == 4 && "jump"@[0] == 'j' && "jump"@[1] == 'u' && "jump"@[2] == 'm' && "jump"@[3] == 'p');
        reveal_strlit("pick");
        assert("pick"@.len() == 4 && "pick"@[0] == 'p' && "pick"@[1] == 'i' && "pick"@[2] == 'c' && "pick"@[3] == 'k');
        reveal_strlit("get");
        assert("get"@.len() == 3 && "get"@[0] == 'g' && "get"@[1] == 'e' && "get"@[2] == 't');
        reveal_strlit("drop");
        assert("drop"@.len() == 4 && "drop"@[0] == 'd' && "drop"@[1] == 'r' && "drop"@[2] == 'o' && "drop"@[3] == 'p');
        reveal_strlit("remove");
        assert("remove"@.len() == 6 && "remove"@[0] == 'r' && "remove"@[1] == 'e' && "remove"@[2] == 'm' && "remove"@[3] == 'o' && "remove"@[4] == 'v' && "remove"@[5] == 'e');
        reveal_strlit("equip");
        assert("equip"@.len() == 5 && "equip"@[0] == 'e' && "equip"@[1] == 'q' && "equip"@[2] == 'u' && "equip"@[3] == 'i' && "equip"@[4] == 'p');
        reveal_strlit("examine");
        assert("examine"@.len() == 7 && "examine"@[0] == 'e' && "examine"@[1] == 'x' && "examine"@[2] == 'a' && "examine"@[3] == 'm' && "examine"@[4] == 'i' && "examine"@[5] == 'n' && "examine"@[6] == 'e');
        reveal_strlit("k");
        assert("k"@.len() == 1 && "k"@[0] == 'k');
        reveal_strlit("kill");
        assert("kill"@.len() == 4 && "kill"@[0] == 'k' && "kill"@[1] == 'i' && "kill"@[2] == 'l' && "kill"@[3] == 'l');
        reveal_strlit("say");
        assert("say"@.len() == 3 && "say"@[0] == 's' && "say"@[1] == 'a' && "say"@[2] == 'y');
        reveal_strlit("buy");
        assert("buy"@.len() == 3 && "buy"@[0] == 'b' && "buy"@[1] == 'u' && "buy"@[2] == 'y');
        reveal_strlit("sell");
        assert("sell"@.len() == 4 && "sell"@[0] == 's' && "sell"@[1] == 'e' && "sell"@[2] == 'l' && "sell"@[3] == 'l');
        reveal_strlit("hire");
        assert("hire"@.len() == 4 && "hire"@[0] == 'h' && "hire"@[1] == 'i' && "hire"@[2] == 'r' && "hire"@[3] == 'e');
        reveal_strlit("extract");
        assert("extract"@.len() == 7 && "extract"@[0] == 'e' && "extract"@[1] == 'x' && "extract"@[2] == 't' && "extract"@[3] == 'r' && "extract"@[4] == 'a' && "extract"@[5] == 'c' && "extract"@[6] == 't');
    }
    assert(first_word(line) == "extract"@ ==> main_command(line) == MainCommand::Extract) by {
        reveal_strlit("l");
        assert("l"@.len() == 1 && "l"@[0] == 'l');
        reveal_strlit("look");
        assert("look"@.len() == 4 && "look"@[0] == 'l' && "look"@[1] == 'o' && "look"@[2] == 'o' && "look"@[3] == 'k');
        reveal_strlit("n");
        assert("n"@.len() == 1 && "n"@[0] == 'n');
        reveal_strlit("s");
        assert("s"@.len() == 1 && "s"@[0] == 's');
        reveal_strlit("e");
        assert("e"@.len() == 1 && "e"@[0] == 'e');
        reveal_strlit("w");
        assert("w"@.len() == 1 && "w"@[0] == 'w');
        reveal_strlit("enter");
        assert("enter"@.len() == 5 && "enter"@[0] == 'e' && "enter"@[1] == 'n' && "enter"@[2] == 't' && "enter"@[3] == 'e' && "enter"@[4] == 'r');
        reveal_strlit("exit");
        assert("exit"@.len() == 4 && "exit"@[0] == 'e' && "exit"@[1] == 'x' && "exit"@[2] == 'i' && "exit"@[3] == 't');
        reveal_strlit("out");
        assert("out"@.len() == 3 && "out"@[0] == 'o' && "out"@[1] == 'u' && "out"@[2] == 't');
        reveal_strlit("rest");
        assert("rest"@.len() == 4 && "rest"@[0] == 'r' && "rest"@[1] == 'e' && "rest"@[2] == 's' && "rest"@[3] == 't');
        reveal_strlit("stand");
        assert("stand"@.len() == 5 && "stand"@[0] == 's' && "stand"@[1] == 't' && "stand"@[2] == 'a' && "stand"@[3] == 'n' && "stand"@[4] == 'd');
        reveal_strlit("stats");
        assert("stats"@.len() == 5 && "stats"@[0] == 's' && "stats"@[1] == 't' && "stats"@[2] == 'a' && "stats"@[3] == 't' && "stats"@[4] == 's');
        reveal_strlit("inv");
        assert("inv"@.len() == 3 && "inv"@[0] == 'i' && "inv"@[1] == 'n' && "inv"@[2] == 'v');
        reveal_strlit("score");
        assert("score"@.len() == 5 && "score"@[0] == 's' && "score"@[1] == 'c' && "score"@[2] == 'o' && "score"@[3] == 'r' && "score"@[4] == 'e');
        reveal_strlit("sm");
        assert("sm"@.len() == 2 && "sm"@[0] == 's' && "sm"@[1] == 'm');
        reveal_strlit("map");
        assert("map"@.len() == 3 && "map"@[0] == 'm' && "map"@[1] == 'a' && "map"@[2] == 'p');
        reveal_strlit("move");
        assert("move"@.len() == 4 && "move"@[0] == 'm' && "move"@[1] == 'o' && "move"@[2] == 'v' && "move"@[3] == 'e');
        reveal_strlit("land");
        assert("land"@.len() == 4 && "land"@[0] == 'l' && "land"@[1] == 'a' && "land"@[2] == 'n' && "land"@[3] == 'd');
        reveal_strlit("launch");
        assert("launch"@.len() == 6 && "launch"@[0] == 'l' && "launch"@[1] == 'a' && "launch"@[2] == 'u' && "launch"@[3] == 'n' && "launch"@[4] == 'c' && "launch"@[5] == 'h');
        reveal_strlit("admin");
        assert("admin"@.len() == 5 && "admin"@[0] == 'a' && "admin"@[1] == 'd' && "admin"@[2] == 'm' && "admin"@[3] == 'i' && "admin"@[4] == 'n');
        reveal_strlit("logout");
        assert("logout"@.len() == 6 && "logout"@[0] == 'l' && "logout"@[1] == 'o' && "logout"@[2] == 'g' && "logout"@[3] == 'o' && "logout"@[4] == 'u' && "logout"@[5] == 't');
        reveal_strlit("h");
        assert("h"@.len() == 1 && "h"@[0] == 'h');
        reveal_strlit("help");
        assert("help"@.len() == 4 && "help"@[0] == 'h' && "help"@[1] == 'e' && "help"@[2] == 'l' && "help"@[3] == 'p');
        reveal_strlit("uptime");
        assert("uptime"@.len() == 6 && "uptime"@[0] == 'u' && "uptime"@[1] == 'p' && "uptime"@[2] == 't' && "uptime"@[3] == 'i' && "uptime"@[4] == 'm' && "uptime"@[5] == 'e');
        reveal_strlit("jump");
        assert("jump"@.len() == 4 && "jump"@[0] == 'j' && "jump"@[1] == 'u' && "jump"@[2] == 'm' && "jump"@[3] == 'p');
        reveal_strlit("pick");
        assert("pick"@.len() == 4 && "pick"@[0] == 'p' && "pick"@[1] == 'i' && "pick"@[2] == 'c' && "pick"@[3] == 'k');
        reveal_strlit("get");
        assert("get"@.len() == 3 && "get"@[0] == 'g' && "get"@[1] == 'e' && "get"@[2] == 't');
        reveal_strlit("drop");
        assert("drop"@.len() == 4 && "drop"@[0] == 'd' && "drop"@[1] == 'r' && "drop"@[2] == 'o' && "drop"@[3] == 'p');
        reveal_strlit("remove");
        assert("remove"@.len() == 6 && "remove"@[0] == 'r' && "remove"@[1] == 'e' && "remove"@[2] == 'm' && "remove"@[3] == 'o' && "remove"@[4] == 'v' && "remove"@[5] == 'e');
        reveal_strlit("equip");
        assert("equip"@.len() == 5 && "equip"@[0] == 'e' && "equip"@[1] == 'q' && "equip"@[2] == 'u' && "equip"@[3] == 'i' && "equip"@[4] == 'p');
        reveal_strlit("examine");
        assert("examine"@.len() == 7 && "examine"@[0] == 'e' && "examine"@[1] == 'x' && "examine"@[2] == 'a' && "examine"@[3] == 'm' && "examine"@[4] == 'i' && "examine"@[5] == 'n' && "examine"@[6] == 'e');
        reveal_strlit("k");
        assert("k"@.len() == 1 && "k"@[0] == 'k');
        reveal_strlit("kill");
        assert("kill"@.len() == 4 && "kill"@[0] == 'k' && "kill"@[1] == 'i' && "kill"@[2] == 'l' && "kill"@[3] == 'l');
        reveal_strlit("say");
        assert("say"@.len() == 3 && "say"@[0] == 's' && "say"@[1] == 'a' && "say"@[2] == 'y');
        reveal_strlit("buy");
        assert("buy"@.len() == 3 && "buy"@[0] == 'b' && "buy"@[1] == 'u' && "buy"@[2] == 'y');
        reveal_strlit("sell");
        assert("sell"@.len() == 4 && "sell"@[0] == 's' && "sell"@[1] == 'e' && "sell"@[2] == 'l' && "sell"@[3] == 'l');
        reveal_strlit("hire");
        assert("hire"@.len() == 4 && "hire"@[0] == 'h' && "hire"@[1] == 'i' && "hire"@[2] == 'r' && "hire"@[3] == 'e');
        reveal_strlit("extract");
        assert("extract"@.len() == 7 && "extract"@[0] == 'e' && "extract"@[1] == 'x' && "extract"@[2] == 't' && "extract"@[3] == 'r' && "extract"@[4] == 'a' && "extract"@[5] == 'c' && "extract"@[6] == 't');
    }
}

/// Law: the line made of a direction's one letter code moves in that direction, for every
/// direction, and no other line moves in it.
pub proof fn direction_code_moves(d: Dir, line: Seq<char>)
    ensures
        main_command(seq![d.code()]) == MainCommand::Move(d),
        main_command(line) == MainCommand::Move(d) ==> line == seq![d.code()],
{
    let s = seq![d.code()];
    assert(s.skip(0) =~= s);
    assert(lead(s.drop_first(), false) == 0);
    assert(lead(s, false) == 1);
    assert(s.take(1) =~= s);
    assert(s.skip(1) =~= Seq::<char>::empty());
    assert(words(s.skip(1)) =~= Seq::<Seq<char>>::empty());
    assert(words(s) =~= seq![s]);
    assert(first_word(s) == s);
    reveal_strlit("admin");
    reveal_strlit("logout");
    reveal_strlit("h");
    reveal_strlit("help");
    reveal_strlit("uptime");
    reveal_strlit("jump");
    reveal_strlit("l");
    reveal_strlit("look");
    reveal_strlit("n");
    reveal_strlit("s");
    reveal_strlit("e");
    reveal_strlit("w");
    assert("h"@ =~= seq!['h']);
    assert("l"@ =~= seq!['l']);
    assert("n"@ =~= seq!['n']);
    assert("s"@ =~= seq!['s']);
    assert("e"@ =~= seq!['e']);
    assert("w"@ =~= seq!['w']);
}

pub fn parse_command(input: &str) -> (r: MainCommand)
    ensures
        r == main_command(input@),
{
    let line = input;
    let first = StrInput(input).first();
    proof {
        assert(first@ == first_word(input@));
    }
    if str_eq(first, "admin") {
        MainCommand::SwitchAdmin
    } else if str_eq(first, "logout") {
        MainCommand::Logout
    } else if str_eq(first, "h") || str_eq(first, "help") {
        MainCommand::Help
    } else if str_eq(first, "uptime") {
        MainCommand::Uptime
    } else if str_eq(first, "jump") {
        MainCommand::Jump
    } else if str_eq(line, "l") || str_eq(line, "look") {
        MainCommand::Look
    } else if str_eq(line, "n") {
        MainCommand::Move(Dir::N)
    } else if str_eq(line, "s") {
        MainCommand::Move(Dir::S)
    } else if str_eq(line, "e") {
        MainCommand::Move(Dir::E)
    } else if str_eq(line, "w") {
        MainCommand::Move(Dir::W)
    } else if str_eq(line, "enter") {
        MainCommand::Enter
    } else if str_eq(first, "enter") {
        MainCommand::Enter
    } else if str_eq(line, "exit") || str_eq(line, "out") {
        MainCommand::Out
    } else if str_eq(line, "rest") {
        MainCommand::Rest
    } else if str_eq(line, "stand") {
        MainCommand::Stand
    } else if str_eq(line, "stats") || str_eq(line, "inv") || str_eq(line, "score") {
        MainCommand::Stats
    } else if str_eq(first, "pick") || str_eq(first, "get") {
        MainCommand::Pickup
    } else if str_eq(first, "drop") {
        MainCommand::Drop
    } else if str_eq(first, "remove") {
        MainCommand::Remove
    } else if str_eq(first, "equip") {
        MainCommand::Equip
    } else if str_eq(first, "examine") {
        MainCommand::Examine
    } else if str_eq(first, "k") || str_eq(first, "kill") {
        MainCommand::Kill
    } else if str_eq(first, "say") {
        MainCommand::Say
    } else if str_eq(line, "sm") {
        MainCommand::ShowStartree
    } else if str_eq(line, "map") {
        MainCommand::ShowMap
    } else if str_eq(line, "move") {
        MainCommand::MoveList
    } else if str_eq(first, "move") {
        MainCommand::MoveTo
    } else if str_eq(line, "land") {
        MainCommand::LandList
    } else if str_eq(first, "land") {
        MainCommand::LandAt
    } else if str_eq(line, "launch") {
        MainCommand::Launch
    } else if str_eq(first, "buy") {
        MainCommand::Buy
    } else if str_eq(first, "sell") {
        MainCommand::Sell
    } else if str_eq(first, "hire") {
        MainCommand::Hire
    } else if str_eq(first, "extract") {
        MainCommand::Extract
    } else {
        MainCommand::Unknown
    }
}


/// What handling a line typed in the game gives: an action for the connection, or a command
/// that this library does not carry out, handed back to the program around it: one that acts on
/// game state not kept here (combat, rest, ships, vendors, crafts), or whose output marks or
/// searches (say, enter, examine) are defined outside this project.
#[derive(Debug, Clone, Copy, PartialEq, Eq, Structural)]
pub enum MainOutcome {
    Action(ConnectionViewAction),
    Pending(MainCommand),
}

/// `r` is what a command's result gives as the result of the line.
pub open spec fn as_outcome(done: Result<(), Error>, r: Result<MainOutcome, Error>) -> bool {
    match done {
        Ok(()) => r == Ok::<MainOutcome, Error>(MainOutcome::Action(ConnectionViewAction::NoAction)),
        Err(e) => r == Err::<MainOutcome, Error>(e),
    }
}

/// What the commands that the library carries out need.
pub open spec fn handle_allowed(c: &Container, mob_id: MobId, input: &str) -> bool {
    match main_command(input@) {
        MainCommand::Pickup => pickup_allowed(c, mob_id, StrInput(input)),
        MainCommand::Drop => drop_allowed(c, mob_id, StrInput(input)),
        MainCommand::Out => out_allowed(c, mob_id),
        MainCommand::Move(dir) => move_allowed(c, mob_id, dir),
        _ => true,
    }
}

/// What handling a line does (see `handle`).
pub open spec fn main_handled<F: Fn(ItemId) -> bool>(c: &Container, f: &Container, mob_id: MobId, input: &str, fits: F, r: Result<MainOutcome, Error>) -> bool {
    &&& {
        let args = StrInput(input);
        match main_command(input@) {
            MainCommand::SwitchAdmin => r == Ok::<MainOutcome, Error>(
                MainOutcome::Action(ConnectionViewAction::SwitchView(ConnectionView::Admin)),
            ) && *f == *c,
            MainCommand::Logout => r == Ok::<MainOutcome, Error>(MainOutcome::Action(ConnectionViewAction::Logout))
                && *f == *c,
            MainCommand::Help => r == Ok::<MainOutcome, Error>(MainOutcome::Action(ConnectionViewAction::NoAction))
                && same_but_outputs(c, f) && told(c, f, mob_id, comm::help_text()),
            MainCommand::Look => exists|d: Result<(), Error>| look_done(c, f, mob_id, d) && as_outcome(d, r),
            MainCommand::Out => exists|d: Result<(), Error>| out_done(c, f, mob_id, d) && as_outcome(d, r),
            MainCommand::Move(dir) => exists|d: Result<(), Error>| mv_done(c, f, mob_id, dir, d) && as_outcome(d, r),
            MainCommand::ShowMap => exists|d: Result<(), Error>| show_map_done(c, f, mob_id, d) && as_outcome(d, r),
            MainCommand::Pickup => exists|d: Result<(), Error>|
                pickup_cmd_done(c, f, mob_id, args, fits, d) && as_outcome(d, r),
            MainCommand::Drop => exists|d: Result<(), Error>| drop_cmd_done(c, f, mob_id, args, d) && as_outcome(d, r),
            MainCommand::Remove => exists|d: Result<(), Error>| strip_cmd_done(c, f, mob_id, args, d) && as_outcome(d, r),
            MainCommand::Equip => exists|d: Result<(), Error>| equip_cmd_done(c, f, mob_id, args, d) && as_outcome(d, r),
            MainCommand::Hire => exists|d: Result<(), Error>| hire_command_done(c, f, mob_id, input@, d) && as_outcome(d, r),
            MainCommand::Unknown => r == Err::<MainOutcome, Error>(Error::InvalidArgumentFailure) && same_but_outputs(
                c,
                f,
            ) && told(c, f, mob_id, comm::unknown_input_text(input@)),
            cmd => r == Ok::<MainOutcome, Error>(MainOutcome::Pending(cmd)) && *f == *c,
        }
    }
}

/// Handle a line typed by the mob's player (see `main_command`): meta commands give an action,
/// the commands of the library are carried out, an unknown line is told and refused with
/// `InvalidArgumentFailure`, and the others are handed back. `fits` says whether the mob can
/// carry an item.
pub fn handle<F: Fn(ItemId) -> bool>(container: &mut Container, mob_id: MobId, input: &str, fits: F) -> (r: Result<MainOutcome, Error>)
    requires
        old(container).wf(),
        forall|i: ItemId| fits.requires((i,)),
        handle_allowed(old(container), mob_id, input),
    ensures
        final(container).wf(),
        main_handled(old(container), final(container), mob_id, input, fits, r),
{
    let args = StrInput(input);
    let command = parse_command(input);
    let done = match command {
        MainCommand::SwitchAdmin => {
            return Ok(MainOutcome::Action(ConnectionViewAction::SwitchView(ConnectionView::Admin)));
        },
        MainCommand::Logout => {
            return Ok(MainOutcome::Action(ConnectionViewAction::Logout));
        },
        MainCommand::Help => {
            container.outputs.private(mob_id, comm::help());
            proof {
                assert(container.outputs@.take(old(container).outputs@.len() as int) =~= old(container).outputs@);
            }
            return Ok(MainOutcome::Action(ConnectionViewAction::NoAction));
        },
        MainCommand::Look => actions::look(container, mob_id),
        MainCommand::Out => out(container, mob_id),
        MainCommand::Move(dir) => mv(container, mob_id, dir),
        MainCommand::ShowMap => actions::show_map(container, mob_id),
        MainCommand::Pickup => pickup(container, mob_id, args, fits),
        MainCommand::Drop => drop(container, mob_id, args),
        MainCommand::Remove => strip(container, mob_id, args),
        MainCommand::Equip => equip(container, mob_id, args),
        MainCommand::Hire => input_handle_hire::hire(container, mob_id, args),
        MainCommand::Unknown => {
            container.outputs.private(mob_id, comm::unknown_input(input));
            proof {
                assert(container.outputs@.take(old(container).outputs@.len() as int) =~= old(container).outputs@);
            }
            return Err(Error::InvalidArgumentFailure);
        },
        pending => {
            return Ok(MainOutcome::Pending(pending));
        },
    };
    let r = match done {
        Ok(()) => Ok(MainOutcome::Action(ConnectionViewAction::NoAction)),
        Err(e) => Err(e),
    };
    proof {
        assert(as_outcome(done, r));
        match command {
            MainCommand::Look => {
                assert(look_done(old(container), container, mob_id, done));
            },
            MainCommand::Out => {
                assert(out_done(old(container), container, mob_id, done));
            },
            MainCommand::Move(dir) => {
                assert(mv_done(old(container), container, mob_id, dir, done));
            },
            MainCommand::ShowMap => {
                assert(show_map_done(old(container), container, mob_id, done));
            },
            MainCommand::Pickup => {
                assert(pickup_cmd_done(old(container), container, mob_id, args, fits, done));
            },
            MainCommand::Drop => {
                assert(drop_cmd_done(old(container), container, mob_id, args, done));
            },
            MainCommand::Remove => {
                assert(strip_cmd_done(old(container), container, mob_id, args, done));
            },
            MainCommand::Equip => {
                assert(equip_cmd_done(old(container), container, mob_id, args, done));
            },
            MainCommand::Hire => {
                assert(hire_command_done(old(container), container, mob_id, input@, done));
            },
            _ => {},
        }
    }
    r
}

/// The inventory of the object as `get_inventory_desc` describes it: its items, in the order
/// given, each with its label, amount and whether the object uses it.
pub open spec fn inventory_items(c: &Container, obj_id: ObjId, items: Seq<Item>) -> Seq<(u32, Seq<char>, u32, bool)> {
    items.map_values(
        |it: Item| (it.id.0, label_text(c.labels@, it.id.0), it.amount, equipment_of(c.equips@, obj_id.0).contains(it.id.0)),
    )
}

/// Describe the inventory of the object: the items located at it, and the weights, which the
/// program around the library computes and writes.
pub fn get_inventory_desc<'a>(
    container: &'a Container,
    obj_id: ObjId,
    total_weight: String,
    max_weight: Option<String>,
) -> (r: InventoryDesc<'a>)
    ensures
        r.total_weight == total_weight,
        r.max_weight == max_weight,
        exists|ids: Seq<ObjId>|
            #![trigger obj_values(ids)]
            obj_values(ids).to_set() == children(container.locations@, obj_id.0) && obj_values(ids).no_duplicates()
                && plain_items(r.items@) == inventory_items(
                container,
                obj_id,
                only_items(obj_values(ids), container.items@).map_values(|k: u32| container.items@[k]),
            ),
{
    let items = inventory_service::get_inventory_list(&container.locations, &container.items, obj_id);
    let mut list: Vec<InventoryItemDesc<'a>> = Vec::new();
    let mut i: usize = 0;
    while i < items.len()
        invariant
            i <= items.len(),
            plain_items(list@) == inventory_items(container, obj_id, items@.take(i as int)),
        decreases items.len() - i,
    {
        let item = items[i];
        let label = container.labels.get_label_f(item.id);
        let equipped = container.equips.has(obj_id, item.id);
        let ghost before = list@;
        list.push(InventoryItemDesc { id: item.id, label, amount: item.amount, equipped });
        proof {
            assert(items@.take(i + 1) =~= items@.take(i as int).push(item));
            assert(inventory_items(container, obj_id, items@.take(i + 1)) =~= inventory_items(
                container,
                obj_id,
                items@.take(i as int),
            ).push((item.id.0, label_text(container.labels@, item.id.0), item.amount, equipped)));
            assert(plain_items(list@) =~= plain_items(before).push(
                (item.id.0, label_text(container.labels@, item.id.0), item.amount, equipped),
            ));
        }
        i = i + 1;
    }
    proof {
        assert(items@.take(items.len() as int) =~= items@);
    }
    InventoryDesc { max_weight, total_weight, items: list }
}

/// What showing a mob's stats does (see `show_stats`).
pub open spec fn stats_shown(c: &Container, f: &Container, mob_id: MobId, total: Seq<char>, max: Option<Seq<char>>, r: Result<(), Error>) -> bool {
    if !c.mobs@.contains_key(mob_id.0) || !c.locations@.contains_key(mob_id.0) || !c.rooms@.contains_key(
        c.locations@[mob_id.0],
    ) {
        (r matches Err(Error::NotFoundFailure)) && *f == *c
    } else {
        let m = c.mobs@[mob_id.0];
        &&& r is Ok
        &&& same_but_outputs(c, f)
        &&& exists|ids: Seq<ObjId>|
            #![trigger obj_values(ids)]
            obj_values(ids).to_set() == children(c.locations@, mob_id.0) && obj_values(ids).no_duplicates() && told(
                c,
                f,
                mob_id,
                stats_text(
                    m.xp,
                    m.attributes,
                    inventory_text(
                        inventory_items(c, mob_id, only_items(obj_values(ids), c.items@).map_values(|k: u32| c.items@[k])),
                        total,
                        max,
                    ),
                ),
            )
    }
}

/// Tell the mob its stats: its attributes, experience and inventory. The weight it carries and
/// the weight it can carry are written by the program around the library.
pub fn show_stats(container: &mut Container, mob_id: MobId, total_weight: String, max_weight: Option<String>) -> (r: Result<(), Error>)
    requires
        old(container).wf(),
    ensures
        final(container).wf(),
        stats_shown(
            old(container),
            final(container),
            mob_id,
            total_weight@,
            comm::opt_text(max_weight),
            r,
        ),
{
    let ghost c0 = *container;
    let ghost mut inv_items: Seq<(u32, Seq<char>, u32, bool)> = Seq::empty();
    let msg = match container.get_mob_ctx(mob_id) {
        Some(ctx) => {
            let id = ctx.mob.id;
            let xp = ctx.mob.xp;
            let attributes = ctx.mob.attributes;
            let inventory = get_inventory_desc(container, id, total_weight, max_weight);
            proof {
                inv_items = plain_items(inventory.items@);
            }
            comm::stats(xp, &attributes, &inventory)
        },
        None => {
            return Err(Error::NotFoundFailure);
        },
    };
    container.outputs.private(mob_id, msg);
    proof {
        crate::game::actions_items::lemma_told(old(container).outputs@, container.outputs@);
        let ids = choose|ids: Seq<ObjId>|
            #![trigger obj_values(ids)]
            obj_values(ids).to_set() == children(c0.locations@, mob_id.0) && obj_values(ids).no_duplicates()
                && inv_items == inventory_items(
                &c0,
                mob_id,
                only_items(obj_values(ids), c0.items@).map_values(|k: u32| c0.items@[k]),
            );
        assert(obj_values(ids).to_set() == children(c0.locations@, mob_id.0));
    }
    Ok(())
}

} // verus!
