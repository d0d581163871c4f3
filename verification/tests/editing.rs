use gap_buffer::GapBuffer;
use gap_buffer::GapBufferError;
use gap_buffer::DEFAULT_BUFFER_CAPACITY;

const TEST_STRING: &str = "The quick brown\nfox jumped over\nthe lazy dog.";

fn assert_bytes_eq(left: Vec<u8>, right: Vec<u8>) {
    let debug_message = format!(
        "Left: '{}'; Right: '{}'",
        std::str::from_utf8(&left).unwrap(),
        std::str::from_utf8(&right).unwrap()
    );

    assert_eq!(left, right, "{}", debug_message);
}

fn buffer_with_contents() -> GapBuffer {
    GapBuffer::from(TEST_STRING.to_string())
}

#[test]
fn initialized_empty() {
    let buffer = GapBuffer::new();

    assert_eq!(buffer.capacity(), DEFAULT_BUFFER_CAPACITY);
    assert_eq!(buffer.len(), 0);
    assert_eq!(buffer.render().unwrap(), "")
}

#[test]
fn initialized_from_string() {
    let buffer = GapBuffer::from(TEST_STRING.to_string());

    assert_eq!(buffer.len(), TEST_STRING.len());
    assert_eq!(buffer.render().unwrap(), TEST_STRING);
}

#[test]
fn insertion_into_full_buffer_allocates_more_capacity() {
    let mut buffer = GapBuffer::from(TEST_STRING.to_string());
    let capacity_before_insertion = buffer.capacity();
    let characters = String::from(" And the fence.");
    let expected_string = TEST_STRING.to_owned() + &characters;
    let index = buffer.len();

    buffer.set_point(index).unwrap();
    buffer.insert_bytes(characters.into_bytes());

    assert!(buffer.capacity() > capacity_before_insertion);
    assert_eq!(buffer.render().unwrap(), expected_string);
}

struct SingleByteTestCase {
    name: String,
    character: u8,
    index: usize,
}

#[test]
fn insert_single_byte() {
    let test_cases = [
        SingleByteTestCase {
            name: "insert 's' into buffer midpoint".to_string(),
            character: 0x0073,
            index: TEST_STRING.len() / 2,
        },
        SingleByteTestCase {
            name: "insert 't' into buffer lower boundary".to_string(),
            character: 0x0074,
            index: 0,
        },
        SingleByteTestCase {
            name: "insert 'q' into buffer upper boundary".to_string(),
            character: 0x0071,
            index: TEST_STRING.len() - 1,
        },
        SingleByteTestCase {
            name: "insert 'A' into buffer lower half".to_string(),
            character: 0x0041,
            index: (TEST_STRING.len() / 2) / 2,
        },
        SingleByteTestCase {
            name: "insert 'S' into buffer upper half".to_string(),
            character: 0x0053,
            index: 40,
        },
    ];

    for test_case in test_cases.iter() {
        let mut buffer = buffer_with_contents();
        let mut expected_string = TEST_STRING.to_owned();
        let byte = vec![test_case.character];
        let character = std::str::from_utf8(&byte).unwrap();
        expected_string.insert_str(test_case.index, character);

        buffer.set_point(test_case.index).unwrap();
        buffer.insert(test_case.character);

        assert_eq!(
            buffer.render().unwrap(),
            expected_string,
            "Test case: \"{}\" failed.",
            test_case.name
        );
    }
}

struct BytesInsertionTestCase {
    name: String,
    characters: String,
    index: usize,
}

#[test]
fn insert_multiple_bytes() {
    let test_cases = [
        BytesInsertionTestCase {
            name: "Insert 'foxy' into buffer midpoint".to_string(),
            characters: "foxy".to_string(),
            index: TEST_STRING.len() / 2,
        },
        BytesInsertionTestCase {
            name: "Insert 'Look! ' into buffer lower boundary".to_string(),
            characters: "Look! ".to_string(),
            index: 0,
        },
        BytesInsertionTestCase {
            name: "Insert 'Yeah.' into buffer upper boundary".to_string(),
            characters: "Yeah.".to_string(),
            index: TEST_STRING.len() - 1,
        },
        BytesInsertionTestCase {
            name: "Insert 'tan' into lower half".to_string(),
            characters: "tan".to_string(),
            index: (TEST_STRING.len() / 2) / 2,
        },
        BytesInsertionTestCase {
            name: "Insert 'slow' into upper half".to_string(),
            characters: "slow".to_string(),
            index: 40,
        },
    ];

    for test_case in test_cases.iter() {
        let mut buffer = buffer_with_contents();
        let mut expected_string = TEST_STRING.to_owned();
        expected_string.insert_str(test_case.index, &test_case.characters);

        buffer.set_point(test_case.index).unwrap();
        buffer.insert_bytes(test_case.characters.to_owned().into_bytes());

        assert_eq!(
            buffer.render().unwrap(),
            expected_string,
            "Test case: \"{}\" failed.",
            test_case.name
        );
    }
}

#[test]
fn remove_single_byte() {
    let test_cases = [
        SingleByteTestCase {
            name: "Remove 'x' from buffer midpoint".to_string(),
            character: 0x0078,
            index: 19,
        },
        SingleByteTestCase {
            name: "Remove 'T' from the buffer lower boundary".to_string(),
            character: 0x0054,
            index: 1,
        },
        SingleByteTestCase {
            name: "Remove '.' from the buffer upper boundary".to_string(),
            character: 0x002e,
            index: TEST_STRING.len() - 1,
        },
        SingleByteTestCase {
            name: "Remove 'b' from the lower half".to_string(),
            character: 0x0062,
            index: 10,
        },
        SingleByteTestCase {
            name: "Remove 'e' from the upper half".to_string(),
            character: 0x0065,
            index: 34,
        },
    ];

    for test_case in test_cases.iter() {
        let mut buffer = buffer_with_contents();
        let mut expected_string = TEST_STRING.to_owned();
        expected_string.remove(test_case.index - 1);

        buffer.set_point(test_case.index).unwrap();
        buffer.remove().unwrap();

        assert_eq!(
            buffer.render().unwrap(),
            expected_string,
            "Test case: \"{}\" failed.",
            test_case.name
        );
        assert_eq!(
            buffer.get_point(),
            test_case.index - 1,
            "Test case: \"{}\" failed. Point not at index {}",
            test_case.name,
            test_case.index - 1
        );
    }
}

#[test]
fn remove_bytes_from_buffer() {
    let expected_bytes = "quick ".as_bytes().to_vec();
    let mut buffer = GapBuffer::from(TEST_STRING.to_string());
    let mut expected_string = TEST_STRING.to_owned();
    expected_string.drain(4..10);

    assert_bytes_eq(buffer.remove_bytes(4..10).unwrap(), expected_bytes);
    assert_eq!(buffer.render().unwrap(), expected_string);
}

#[test]
fn set_the_point() {
    let mut buffer = GapBuffer::from(TEST_STRING.to_string());

    buffer.set_point(8).unwrap();
    assert_eq!(buffer.get_point(), 8);

    buffer.set_point(44).unwrap();
    assert_eq!(buffer.get_point(), 44);

    buffer.set_point(0).unwrap();
    assert_eq!(buffer.get_point(), 0);
}

#[test]
#[should_panic(expected = "Index out of bounds. The length is 45 but the index is 50.")]
fn set_the_point_out_of_bounds_panics() {
    let mut buffer = GapBuffer::from(TEST_STRING.to_string());

    if let Err(GapBufferError::OutOfBounds { index, length }) = buffer.set_point(50) {
        panic!("Index out of bounds. The length is {} but the index is {}.", length, index);
    }
}
