use opstring::OpString;

#[test]
fn empty_string() {
    // Try to create the OpString around the empty string
    let ops = OpString::new("");
    // Make sure there is nothing in there
    assert_eq!(ops.len(), 0);
}

#[test]
fn ascii_string() {
    // Try to create the OpString around a simple string of only ascii characters
    let ops = OpString::new("Hello, world!");

    // Check the length
    assert_eq!(ops.len(), 13);

    // Check the characters
    assert_eq!(ops.at(0), "H");
    assert_eq!(ops.at(1), "e");
    assert_eq!(ops.at(2), "l");
    assert_eq!(ops.at(3), "l");
    assert_eq!(ops.at(4), "o");
    assert_eq!(ops.at(5), ",");
    assert_eq!(ops.at(6), " ");
    assert_eq!(ops.at(7), "w");
    assert_eq!(ops.at(8), "o");
    assert_eq!(ops.at(9), "r");
    assert_eq!(ops.at(10), "l");
    assert_eq!(ops.at(11), "d");
    assert_eq!(ops.at(12), "!");
}

#[test]
fn ascii_string_iter() {
    // Try to create the OpString around a simple string of only ascii characters
    let par = "Hello, world!";
    let ops = OpString::new(par);

    // Iterate over the pairs
    let mut j: usize = 0;
    let mut it = ops.iter();
    while let Some((i, c)) = it.next() {
        assert_eq!(i, j);
        assert_eq!(c, String::from(par.chars().nth(i).unwrap()));
        j += 1;
    }

    // Iterate over the characters
    let mut citer = ops.chars();
    assert_eq!(citer.next(), Some("H"));
    assert_eq!(citer.next(), Some("e"));
    assert_eq!(citer.next(), Some("l"));
    assert_eq!(citer.next(), Some("l"));
    assert_eq!(citer.next(), Some("o"));
    assert_eq!(citer.next(), Some(","));
    assert_eq!(citer.next(), Some(" "));
    assert_eq!(citer.next(), Some("w"));
    assert_eq!(citer.next(), Some("o"));
    assert_eq!(citer.next(), Some("r"));
    assert_eq!(citer.next(), Some("l"));
    assert_eq!(citer.next(), Some("d"));
    assert_eq!(citer.next(), Some("!"));
}

#[test]
fn utf8_string() {
    // Try to create the OpString around a more complicated string of special characters
    let ops = OpString::new(":⁾");

    // Check the length
    assert_eq!(ops.len(), 2);

    // Check the characters
    assert_eq!(ops.at(0), ":");
    assert_eq!(ops.at(1), "⁾");
}

#[test]
fn utf8_string_iter() {
    // Try to create the OpString around a simple string of only ascii characters
    let par = ":⁾";
    println!("par len: {}", par.len());
    let ops = OpString::new(par);

    // Iterate over the pairs
    let mut j: usize = 0;
    let mut it = ops.iter();
    while let Some((i, c)) = it.next() {
        assert_eq!(i, j);
        for k in 0..c.len() {
            assert_eq!(c.bytes().nth(k).unwrap(), par.bytes().nth(i + k).unwrap());
        }
        j += c.len();
    }

    // Iterate over the characters
    let mut citer = ops.chars();
    assert_eq!(citer.next(), Some(":"));
    assert_eq!(citer.next(), Some("⁾"));
}
