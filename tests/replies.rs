use sudoku::{display_reply, solve_reply};

const INVALID_MESSAGE: &str = "Invalid Grid. Provide a string of 81 digits with 0 or . for empties.";

#[test]
fn solve_ok() {
    let reply = solve_reply(Some(
        "700000600060001070804020005000470000089000340000039000600050709010300020003000004",
    ));
    assert_eq!(reply.status, "success");
    assert_eq!(
        reply.data,
        "791543682562981473834726915356478291289615347147239568628154739415397826973862154"
    );
    assert_eq!(reply.message, "");
}

#[test]
fn display_ok() {
    let reply = display_reply(Some(
        "309800000000500000250009600480000097700000005930000061008300056000006000000007403",
    ));
    assert_eq!(reply.status, "success");
    assert_eq!(
        reply.data,
        vec![
            "3 0 9 |8 0 0 |0 0 0 ",
            "0 0 0 |5 0 0 |0 0 0 ",
            "2 5 0 |0 0 9 |6 0 0 ",
            "------+------+------",
            "4 8 0 |0 0 0 |0 9 7 ",
            "7 0 0 |0 0 0 |0 0 5 ",
            "9 3 0 |0 0 0 |0 6 1 ",
            "------+------+------",
            "0 0 8 |3 0 0 |0 5 6 ",
            "0 0 0 |0 0 6 |0 0 0 ",
            "0 0 0 |0 0 7 |4 0 3 ",
        ]
    );
    assert_eq!(reply.message, "");
}

#[test]
fn solve_err_puzzle() {
    let reply = solve_reply(Some(
        "X00000600060001070804020005000470000089000340000039000600050709010300020003000004",
    ));
    assert_eq!(reply.status, "fail");
    assert_eq!(reply.data, "");
    assert_eq!(reply.message, INVALID_MESSAGE);
}

#[test]
fn solve_err_json() {
    // A request body without a `puzzle` field carries no puzzle text.
    let reply = solve_reply(None);
    assert_eq!(reply.status, "fail");
    assert_eq!(reply.data, "");
    assert_eq!(reply.message, INVALID_MESSAGE);
}

#[test]
fn display_err_puzzle() {
    let reply = display_reply(Some("12345"));
    assert_eq!(reply.status, "fail");
    assert!(reply.data.is_empty());
    assert_eq!(reply.message, INVALID_MESSAGE);
    let reply = display_reply(None);
    assert_eq!(reply.status, "fail");
    assert!(reply.data.is_empty());
}

#[test]
fn unsolvable_reply_carries_its_message() {
    let mut cells: Vec<char> = "12345678".chars().collect();
    cells.extend(std::iter::repeat('0').take(73));
    cells[9 * 4 + 8] = '9';
    let text: String = cells.into_iter().collect();
    let reply = solve_reply(Some(&text));
    assert_eq!(reply.status, "fail");
    assert_eq!(reply.data, "");
    assert_eq!(reply.message, "Puzzle is unsolvable.");
}
