use primer::basics::{labelled, one, value_from_loop};
use primer::coins::{plus_one, Coin, UsState};
use primer::guessing::{judge, respond, secret_number, Answer};
use primer::largest::largest;
use primer::ownership::{change, first_world};
use primer::shapes::Rectangle;
use primer::summary::{read_more, summarizable_item, NewArticle, Summary};

#[test]
fn it_works() -> Result<(), String> {
    if 2 + 2 == 4 {
        Ok(())
    } else {
        Err(String::from("two plus two does not equal four"))
    }
}

#[test]
fn largest_of_numbers_and_of_characters() {
    assert_eq!(largest(&[34, 50, 25, 100, 65]), 100);
    assert_eq!(largest(&['y', 'm', 'a', 'q']), 'y');
    assert_eq!(largest(&[7u8]), 7);
    assert_eq!(largest(&[-3i64, -1, -2]), -1);
}

#[test]
fn largest_keeps_the_first_among_equals() {
    let list = [(1, 'a'), (2, 'b'), (2, 'b'), (0, 'z')];
    assert_eq!(largest(&list), (2, 'b'));
    assert_eq!(largest(&[5, 5, 5]), 5);
}

#[test]
fn article_is_summed_up_by_author_title_and_content() {
    let article = NewArticle {
        title: String::from("today's news"),
        content: String::from("stock price"),
        author: String::from("min"),
    };
    assert_eq!(article.summarize(), "min:today's news-stock price");
    let blank = NewArticle {
        title: String::new(),
        content: String::new(),
        author: String::new(),
    };
    assert_eq!(blank.summarize(), ":-");
}

#[test]
fn sample_item_and_default_summary() {
    assert_eq!(summarizable_item().summarize(), "min:today's news-stock price");
    assert_eq!(read_more(), "read more ...");
}

#[test]
fn one_and_the_value_from_the_loop() {
    assert_eq!(one(), 1);
    assert_eq!(value_from_loop(), 20);
}

#[test]
fn numbers_are_printed_in_decimal() {
    assert_eq!(labelled("one is ", one()), "one is 1");
    assert_eq!(labelled("value from loop: ", value_from_loop()), "value from loop: 20");
    assert_eq!(labelled("", 0), "0");
    assert_eq!(labelled("", 128), "128");
    assert_eq!(labelled("n=", 1000), "n=1000");
    assert_eq!(labelled("", u64::MAX), "18446744073709551615");
}

#[test]
fn change_appends_world() {
    let mut s = String::from("hello");
    change(&mut s);
    assert_eq!(s, "hello, world");
    change(&mut s);
    assert_eq!(s, "hello, world, world");
}

#[test]
fn first_world_stops_at_the_mark() {
    let s = String::from("hello world");
    assert_eq!(first_world(&s, ' '), "hello");
    assert_eq!(first_world(&s, 'h'), "");
    assert_eq!(first_world(&s, 'd'), "hello worl");
    assert_eq!(first_world(&s, 'x'), "hello world");
    assert_eq!(first_world(&String::new(), ' '), "");
}

#[test]
fn first_world_compares_bytes() {
    let s = String::from("h\u{e9}llo w\u{f6}rld");
    assert_eq!(first_world(&s, ' '), "h\u{e9}llo");
    assert_eq!(first_world(&s, '\u{c3}'), "h");
    assert_eq!(first_world(&s, '\u{120}'), "h\u{e9}llo");
    assert_eq!(first_world(&s, '\u{e9}'), s);
}

#[test]
fn rectangle_area_and_square() {
    let rect = Rectangle { width: 100, height: 50 };
    assert_eq!(rect.area(), 5000);
    assert_eq!(Rectangle::square(100), Rectangle { width: 100, height: 100 });
    assert_eq!(Rectangle::square(100).area(), 10000);
    assert_eq!(Rectangle::square(65535).area(), 4294836225);
    assert_eq!(Rectangle { width: 0, height: 9 }.area(), 0);
}

#[test]
fn rectangle_holds_what_is_no_larger() {
    let larger = Rectangle { width: 100, height: 30 };
    let smaller = Rectangle { width: 30, height: 10 };
    assert!(larger.can_hold(&smaller));
    assert!(!smaller.can_hold(&larger));
    assert!(larger.can_hold(&larger));
    assert!(!larger.can_hold(&Rectangle { width: 20, height: 31 }));
    assert!(!larger.can_hold(&Rectangle { width: 101, height: 10 }));
}

#[test]
fn coins_have_their_worth() {
    assert_eq!(Coin::Penny.value_in_cents(), 1);
    assert_eq!(Coin::Nickel.value_in_cents(), 5);
    assert_eq!(Coin::Dime.value_in_cents(), 10);
    assert_eq!(Coin::Quarter(UsState::Alabama).value_in_cents(), 25);
    assert_eq!(Coin::Quarter(UsState::Alaska).value_in_cents(), 25);
}

#[test]
fn plus_one_steps_up_what_is_there() {
    assert_eq!(plus_one(None), None);
    assert_eq!(plus_one(Some(5)), Some(6));
    assert_eq!(plus_one(Some(0)), Some(1));
    assert_eq!(plus_one(Some(254)), Some(255));
}

#[test]
fn secret_lies_between_one_and_nine() {
    let mut seen = [false; 10];
    for _ in 0..2000 {
        let secret = secret_number();
        assert!(1 <= secret && secret < 10);
        seen[secret as usize] = true;
    }
    assert!(seen[1..].iter().filter(|hit| **hit).count() > 1);
}

#[test]
fn guesses_are_answered() {
    assert_eq!(judge(5, "4"), Answer::TooSmall);
    assert_eq!(judge(5, "6"), Answer::TooBig);
    assert_eq!(judge(5, "5"), Answer::Win);
    assert_eq!(judge(5, "+5"), Answer::Win);
    assert_eq!(judge(5, "005"), Answer::Win);
    assert_eq!(judge(0, "0"), Answer::Win);
    assert_eq!(judge(7, "4294967295"), Answer::TooBig);
    assert_eq!(judge(4294967295, "4294967295"), Answer::Win);
}

#[test]
fn what_is_no_number_is_invalid() {
    assert_eq!(judge(5, ""), Answer::Invalid);
    assert_eq!(judge(5, "+"), Answer::Invalid);
    assert_eq!(judge(5, "-"), Answer::Invalid);
    assert_eq!(judge(5, "-5"), Answer::Invalid);
    assert_eq!(judge(0, "-0"), Answer::Invalid);
    assert_eq!(judge(5, "++5"), Answer::Invalid);
    assert_eq!(judge(5, "5+"), Answer::Invalid);
    assert_eq!(judge(5, " 5"), Answer::Invalid);
    assert_eq!(judge(5, "5\n"), Answer::Invalid);
    assert_eq!(judge(5, "five"), Answer::Invalid);
    assert_eq!(judge(5, "5.0"), Answer::Invalid);
    assert_eq!(judge(5, "1_000"), Answer::Invalid);
    assert_eq!(judge(5, "0x5"), Answer::Invalid);
    assert_eq!(judge(5, "\u{665}"), Answer::Invalid);
    assert_eq!(judge(5, "4294967296"), Answer::Invalid);
    assert_eq!(judge(5, "99999999999999999999"), Answer::Invalid);
}

#[test]
fn typed_lines_are_trimmed_first() {
    assert_eq!(respond(5, "5\n"), Answer::Win);
    assert_eq!(respond(5, "  4 \r\n"), Answer::TooSmall);
    assert_eq!(respond(5, "\t9"), Answer::TooBig);
    assert_eq!(respond(5, "\n"), Answer::Invalid);
    assert_eq!(respond(5, "5 5\n"), Answer::Invalid);
    assert_eq!(respond(5, "x5\n"), Answer::Invalid);
}
