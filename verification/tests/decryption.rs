use nine_saves::decryption::{decrypt, decrypt_blocks, strip_padding, BLOCK_SIZE, KEY};
use nine_saves::error::MetadataError;
use nine_saves::metadata::{nesting, Member, SaveInfo, NESTING_LIMIT};

const SAMPLE: &str = "1s5HvVtuLGW3T+UEb8oZh7+PEknj0CgMijOHVWILDy7hC9ah92LSPHX5OKzY4LOg9P3IpdGzGKMZfUWOc/sfEiYS2MsXRICTdDV/yfAZI6ovIMZjI6BiS7vwqcsL3lbEPkUbP9HBJC+agWNdh6F/c+9zUlrq6hDbGCyNpgMYc/Bmnz2aaOK3eYtqxW7YNQ9GiN23YtLAet0SEHYaUk/oE1HWXQIfZiXjN6DLJwkwWq6C4q6LfoZo6Ss99aF20qo9s5MkEXhaoRIXBWcxvM8GamkCTES8mBduzpmFDZtHQn27UVSmhLNbfh9oBs5WjeErhZABDRQqTzTtCvK8YI5DbUXupX2mFomp68sOHoxGegw45tR7hLZdl8lc7aP+XxZR8FpTRLnCKcw1uSozHP3qQZvC5tLTx7QH8A9CSh4wG8iwMs/06qIwqLCKJznn/+wDUY5X/yfUafV5pexXm/LRkUjKuV+igzc6ULT6zPLdRogobvqeKruAIxUPibG7mfjXYXs37Jw4Ld111lJxP16X5gFZixcTbqG6IMg/SqegyZ6RZ3yrpxv7g54WsMq7tzuJ";

const SAMPLE_PLAIN: &str = "{\"exist\":true,\"lastTeleportPointPath\":\"9115d3446fcc24abab2c0030d55abd1eTeleportPointData\",\"atSceneGuid\":\"1d24fc87063235c40b83b837dcab39a5GameLevelMapData\",\"lastPos\":{\"x\":3512.0,\"y\":-4992.0,\"z\":0.0},\"gold\":889,\"level\":2,\"exp\":2390,\"skillPointLeft\":0,\"totalSkillLevel\":1,\"playTime\":1991.22607421875,\"deathCount\":1.0,\"finishedCreditRoll\":false,\"secondTimePlay\":false,\"trueEndTriggered\":false,\"badEndTriggered\":false,\"gameMode\":0}";

const SMALL: &str = "RXBsno0mVcB5yrtIuH+Wq/aJAnBZN04+DOgaSsRh0RefyPY2Gbl1al4vNT8NixonZKSpSZ9nnq7tlhFxxuSq0kDSdfoXb+98JO87kjoaBuQ=";

fn member(key: &str, unsigned: Option<u64>, double: Option<f64>, text: Option<&str>) -> Member {
    Member {
        key: key.to_string(),
        unsigned,
        double_bits: double.map(f64::to_bits),
        text: text.map(|t| t.to_string()),
    }
}

fn five_members() -> Vec<Member> {
    vec![
        member("level", Some(7), Some(7.0), None),
        member("playTime", None, Some(12.5), None),
        member("gold", Some(1234), Some(1234.0), None),
        member("gameMode", Some(1), Some(1.0), None),
        member("atSceneGuid", None, None, Some("abc")),
    ]
}

#[test]
fn decryption() {
    let data = SAMPLE.as_bytes();
    let _decrypted = decrypt(&data).unwrap();
}

#[test]
fn key_is_the_ascii_digits() {
    assert_eq!(&KEY, b"1234567812345678");
    assert_eq!(BLOCK_SIZE, 16);
}

#[test]
fn decrypt_gives_the_plain_text_of_the_sample() {
    let plain = decrypt(SAMPLE.as_bytes()).unwrap();
    assert_eq!(plain, SAMPLE_PLAIN.as_bytes().to_vec());
}

#[test]
fn decrypt_differs_from_its_input() {
    let plain = decrypt(SMALL.as_bytes()).unwrap();
    assert_ne!(plain, SMALL.as_bytes().to_vec());
    assert_eq!(
        plain,
        b"{\"level\":7,\"playTime\":12.5,\"gold\":1234,\"gameMode\":1,\"atSceneGuid\":\"abc\"}".to_vec()
    );
}

#[test]
fn decrypt_refuses_text_that_is_not_base64() {
    assert_eq!(decrypt(b"not base64!"), Err(MetadataError::Base64));
    assert_eq!(decrypt(b"AAA"), Err(MetadataError::Base64));
}

#[test]
fn decrypt_refuses_a_partial_block() {
    assert_eq!(decrypt(b"AAAA"), Err(MetadataError::BlockLength));
}

#[test]
fn decrypt_of_nothing_lacks_its_padding() {
    assert_eq!(decrypt(b""), Err(MetadataError::Padding));
}

#[test]
fn decrypt_blocks_refuses_lengths_off_the_block_size() {
    assert_eq!(decrypt_blocks(&[0u8; 15]), Err(MetadataError::BlockLength));
    assert_eq!(decrypt_blocks(&[0u8; 17]), Err(MetadataError::BlockLength));
    assert_eq!(decrypt_blocks(&[]), Err(MetadataError::Padding));
}

#[test]
fn decoding_the_sample_gives_its_record() {
    let info = SaveInfo::decrypt_from(SAMPLE.as_bytes()).unwrap();
    assert_eq!(info.level, 2);
    assert_eq!(f64::from_bits(info.playtime), 1991.22607421875);
    assert_eq!(info.playtime, 4656472320334888960);
    assert_eq!(info.gold, 889);
    assert_eq!(info.gamemode, 0);
    assert_eq!(info.atsceneguid, "1d24fc87063235c40b83b837dcab39a5GameLevelMapData");
}

#[test]
fn decoding_is_repeatable() {
    let first = SaveInfo::decrypt_from(SAMPLE.as_bytes());
    let second = SaveInfo::decrypt_from(SAMPLE.as_bytes());
    assert_eq!(first, second);
    let failed = SaveInfo::decrypt_from(b"AAAA");
    assert_eq!(failed, SaveInfo::decrypt_from(b"AAAA"));
}

#[test]
fn decoding_a_small_record() {
    let info = SaveInfo::decrypt_from(SMALL.as_bytes()).unwrap();
    assert_eq!(
        info,
        SaveInfo {
            level: 7,
            playtime: 12.5f64.to_bits(),
            gold: 1234,
            gamemode: 1,
            atsceneguid: "abc".to_string(),
        }
    );
}

#[test]
fn decoding_takes_whole_numbers_for_the_play_time_and_the_largest_values() {
    let text = "kPoPTQ3G3t3UQQbAlOFO7YLBXYy1eWhqBUfNjOXoJhnd/Ort88UlfDpR8zsDWsGJQAgRDnq97eT1XaM8JHpAFEJGGotDQwodLZN5b7u3q18=";
    let info = SaveInfo::decrypt_from(text.as_bytes()).unwrap();
    assert_eq!(info.level, 0);
    assert_eq!(f64::from_bits(info.playtime), 100.0);
    assert_eq!(info.gold, 4294967295);
    assert_eq!(info.gamemode, 255);
    assert_eq!(info.atsceneguid, "");
}

#[test]
fn decoding_passes_base64_and_block_errors_on() {
    assert_eq!(SaveInfo::decrypt_from(b"????"), Err(MetadataError::Base64));
    assert_eq!(SaveInfo::decrypt_from(b"AAAA"), Err(MetadataError::BlockLength));
}

#[test]
fn decoding_refuses_what_is_no_json_object() {
    // nothing at all
    assert_eq!(SaveInfo::from_payload(b""), Err(MetadataError::Payload));
    // the text `hello there`
    assert_eq!(
        SaveInfo::decrypt_from(b"TVb9s8igmhzOqmjqrX3PhA=="),
        Err(MetadataError::Payload)
    );
    // a JSON array of the five values
    assert_eq!(
        SaveInfo::decrypt_from(b"CeTjraO4AaSTE9F5hGgDQejI0cC0BCoDZXA0fCHHMIs="),
        Err(MetadataError::Payload)
    );
    // the small record followed by ` x`
    assert_eq!(
        SaveInfo::decrypt_from(
            b"RXBsno0mVcB5yrtIuH+Wq/aJAnBZN04+DOgaSsRh0RefyPY2Gbl1al4vNT8NixonZKSpSZ9nnq7tlhFxxuSq0nlMOHOa7gTMN3JelBx9th8="
        ),
        Err(MetadataError::Payload)
    );
}

#[test]
fn decoding_refuses_bad_padding() {
    // a block that ends in a byte larger than the text is long
    assert_eq!(
        SaveInfo::decrypt_from(b"N09A0qn+jOcrvUn4YiBleg=="),
        Err(MetadataError::Padding)
    );
    // a record followed by zero bytes in place of padding
    assert_eq!(
        SaveInfo::decrypt_from(
            b"RXBsno0mVcB5yrtIuH+Wq/aJAnBZN04+DOgaSsRh0RefyPY2Gbl1al4vNT8NixonZKSpSZ9nnq7tlhFxxuSq0qFDsP3l+e+tz4SAJEj6XEo="
        ),
        Err(MetadataError::Padding)
    );
    // a record followed by the bytes 1 to 8: only the last one says 8
    assert_eq!(
        SaveInfo::decrypt_from(
            b"RXBsno0mVcB5yrtIuH+Wq/aJAnBZN04+DOgaSsRh0RefyPY2Gbl1al4vNT8NixonZKSpSZ9nnq7tlhFxxuSq0qk6lvh9uOiIP9EUnYUNspU="
        ),
        Err(MetadataError::Padding)
    );
    assert_eq!(decrypt(b""), Err(MetadataError::Padding));
}

#[test]
fn decoding_takes_padding_of_one_byte_and_of_a_whole_block() {
    let one = "RXBsno0mVcB5yrtIuH+Wq/aJAnBZN04+DOgaSsRh0RefyPY2Gbl1al4vNT8NixonZKSpSZ9nnq7tlhFxxuSq0pMlxoUtpHxWXQLiugZtJW8=";
    let full = "RXBsno0mVcB5yrtIuH+Wq/aJAnBZN04+DOgaSsRh0RefyPY2Gbl1al4vNT8NixonZKSpSZ9nnq7tlhFxxuSq0qcuueVwT9WsEcU3lFPZ+KunUSqXkTNpRN4HDCuhSze3";
    assert_eq!(decrypt(one.as_bytes()).unwrap().len(), 79);
    assert_eq!(decrypt(full.as_bytes()).unwrap().len(), 80);
    for text in [one, full] {
        let info = SaveInfo::decrypt_from(text.as_bytes()).unwrap();
        assert_eq!(info.gold, 1234);
        assert_eq!(info.atsceneguid, "abc");
    }
}

#[test]
fn strip_padding_takes_off_what_the_last_byte_says() {
    assert_eq!(strip_padding(vec![7, 7, 1]), Ok(vec![7, 7]));
    assert_eq!(strip_padding(vec![9, 2, 2]), Ok(vec![9]));
    assert_eq!(strip_padding(vec![3, 3, 3]), Ok(vec![]));
    assert_eq!(strip_padding(vec![16; 16]), Ok(vec![]));
    let mut blocks = vec![b'x'; 20];
    blocks.extend(vec![12u8; 12]);
    assert_eq!(strip_padding(blocks), Ok(vec![b'x'; 20]));
}

#[test]
fn strip_padding_refuses_what_is_no_padding() {
    let bad: [Vec<u8>; 8] = [
        vec![],
        vec![0],
        vec![5, 0],
        vec![2],
        vec![1, 2],
        vec![3, 2, 3],
        vec![17; 17],
        vec![200; 255],
    ];
    for blocks in bad {
        assert_eq!(strip_padding(blocks), Err(MetadataError::Padding));
    }
    let mut uneven = vec![b'x'; 8];
    uneven.extend([1u8, 2, 3, 4, 5, 6, 7, 8]);
    assert_eq!(strip_padding(uneven), Err(MetadataError::Padding));
}

#[test]
fn nesting_counts_brackets_outside_strings() {
    assert_eq!(NESTING_LIMIT, 32);
    assert_eq!(nesting(b""), 0);
    assert_eq!(nesting(b"12"), 0);
    assert_eq!(nesting(b"{}"), 1);
    assert_eq!(nesting(b"[[]]"), 2);
    assert_eq!(nesting(b"{\"a\":[1,{\"b\":[]}],\"c\":[]}"), 4);
    assert_eq!(nesting(b"[[],[],[[]],[]]"), 3);
    assert_eq!(nesting(b"\"[[[[\""), 0);
    assert_eq!(nesting(b"[\"a\\\"[[\",[]]"), 2);
    assert_eq!(nesting(b"[\"\\\\\",[[]]]"), 3);
    assert_eq!(nesting(b"]]][["), 2);
    assert_eq!(nesting(b"[[["), 3);
}

#[test]
fn from_payload_refuses_what_is_nested_too_deep() {
    let nested = |depth: usize| {
        let mut text = "{\"a\":".repeat(depth - 1);
        text.push_str("{}");
        text.push_str(&"}".repeat(depth - 1));
        text.into_bytes()
    };
    assert_eq!(nesting(&nested(32)), 32);
    assert_eq!(nesting(&nested(500)), 500);
    assert_eq!(SaveInfo::from_payload(&nested(3)), Err(MetadataError::Field));
    assert_eq!(SaveInfo::from_payload(&nested(32)), Err(MetadataError::Field));
    assert_eq!(SaveInfo::from_payload(&nested(33)), Err(MetadataError::Payload));
    assert_eq!(SaveInfo::from_payload(&nested(500)), Err(MetadataError::Payload));
    assert_eq!(SaveInfo::from_payload(&vec![b'['; 500_000]), Err(MetadataError::Payload));
    assert_eq!(SaveInfo::from_payload(&vec![b'{'; 500_000]), Err(MetadataError::Payload));
    let mut record = b"{\"level\":1,\"playTime\":2,\"gold\":3,\"gameMode\":4,".to_vec();
    record.extend(b"\"atSceneGuid\":\"x\",\"deep\":");
    let mut deeper = record.clone();
    record.extend("[".repeat(31).bytes());
    record.extend("]".repeat(31).bytes());
    record.push(b'}');
    assert_eq!(nesting(&record), 32);
    assert_eq!(SaveInfo::from_payload(&record).unwrap().gold, 3);
    deeper.extend("[".repeat(32).bytes());
    deeper.extend("]".repeat(32).bytes());
    deeper.push(b'}');
    assert_eq!(SaveInfo::from_payload(&deeper), Err(MetadataError::Payload));
}

#[test]
fn decoding_refuses_a_missing_field() {
    assert_eq!(
        SaveInfo::decrypt_from(
            b"RXBsno0mVcB5yrtIuH+Wq6X05VcgLvuMipEWFet4oFxlxld+nKhCf2/xA1oQ85eCxwGE4QLu9fHRA8LJsdUzxw=="
        ),
        Err(MetadataError::Field)
    );
}

#[test]
fn decoding_refuses_fields_of_the_wrong_type() {
    let level_300 = "N/yoqY11tB7udm8RIv6is2f+NhVh51Xo0/ZNIDbVKiwWLFkv7kJWpRJkfezCb4kQgd8VfFtrcx5VJ5wT6rc3y6NYR0hTEp7npsYZNrbnI4U=";
    let level_text = "NfdWeqy9odiSZHY8jyXRDkMVjA9TD7J5xjyiMHE5ahbsf/kwr4NIWy33CfYT9FHqWh4P1Ft8mJoqSVE32R7xCIszaj5bIRn91oL6wCRLRk8=";
    let level_float = "43GnUDWmMSchhXfQL5p+J/dV0H77prHtmwzCvkBwhf5ZvEtjsQKTFXegwhvSfCiuY7X4+UU8vvBBzLhJ2fB9ZTyVFuS6E7Wbns7y83qlVYM=";
    let gold_big = "kPoPTQ3G3t3UQQbAlOFO7YLBXYy1eWhqBUfNjOXoJhm/wfXD6qF5PgKq1bvBeNs8MoURrWuo7C64Cn5vUfljSc0b04KFUCh7s6InB3k/6VA=";
    let negative_level = "ATHVa9HYgTnWJSn6EAIOlECVwFTytoi1sCF8nJ0tMHTVBdzbr2XcDO/8kznj9QU3mTdYSqFIWmkqNveG8nlQ2WscxBCSuwy0V6rKl+abQnE=";
    let scene_number = "RXBsno0mVcB5yrtIuH+Wq/aJAnBZN04+DOgaSsRh0RefyPY2Gbl1al4vNT8NixonZKSpSZ9nnq7tlhFxxuSq0hD8QSxoJyocDlqLE6c8CVc=";
    let playtime_text = "RXBsno0mVcB5yrtIuH+Wq4eECoW2hlMA6E5gz/jQ/leupRBBjNnIefu5QPnHqvnxGOGYZgQcmlMLD9lURWbFaf4HwO/z40v1v0ykH24tJSw=";
    for text in [
        level_300,
        level_text,
        level_float,
        gold_big,
        negative_level,
        scene_number,
        playtime_text,
    ] {
        assert_eq!(SaveInfo::decrypt_from(text.as_bytes()), Err(MetadataError::Field));
    }
}

#[test]
fn decoding_refuses_a_field_that_is_there_twice() {
    let level_twice = "V9iLJF3oLpRgtszLOWfdfemWfYw4p6TTODXsfQcBqtPDvu7m/G2lsJVckfQyV5wng5nWM4rt2qZMhdy2JIgD1UwqHXj/BHUW596NRXevJpaG5CJCy4n9bJFa7ujXaklm";
    assert_eq!(SaveInfo::decrypt_from(level_twice.as_bytes()), Err(MetadataError::Field));
}

#[test]
fn from_payload_reads_plain_json() {
    let info = SaveInfo::from_payload(SAMPLE_PLAIN.as_bytes()).unwrap();
    assert_eq!(info.level, 2);
    assert_eq!(info.gold, 889);
    assert_eq!(SaveInfo::from_payload(b"{"), Err(MetadataError::Payload));
    assert_eq!(SaveInfo::from_payload(b"12"), Err(MetadataError::Payload));
    assert_eq!(SaveInfo::from_payload(b"{}"), Err(MetadataError::Field));
}

#[test]
fn from_members_takes_the_five_fields() {
    let info = SaveInfo::from_members(&five_members()).unwrap();
    assert_eq!(info.level, 7);
    assert_eq!(f64::from_bits(info.playtime), 12.5);
    assert_eq!(info.gold, 1234);
    assert_eq!(info.gamemode, 1);
    assert_eq!(info.atsceneguid, "abc");
}

#[test]
fn from_members_passes_over_other_keys() {
    let mut members = five_members();
    members.insert(0, member("exp", Some(2390), Some(2390.0), None));
    members.push(member("Level", Some(9), Some(9.0), None));
    let info = SaveInfo::from_members(&members).unwrap();
    assert_eq!(info.level, 7);
}

#[test]
fn from_members_needs_each_field_once() {
    for skipped in 0..5 {
        let mut members = five_members();
        members.remove(skipped);
        assert_eq!(SaveInfo::from_members(&members), Err(MetadataError::Field));
    }
    let mut members = five_members();
    members.push(member("gold", Some(1), Some(1.0), None));
    assert_eq!(SaveInfo::from_members(&members), Err(MetadataError::Field));
    assert_eq!(SaveInfo::from_members(&vec![]), Err(MetadataError::Field));
}

#[test]
fn from_members_checks_the_ranges() {
    let mut members = five_members();
    members[0] = member("level", Some(255), Some(255.0), None);
    assert_eq!(SaveInfo::from_members(&members).unwrap().level, 255);
    members[0] = member("level", Some(256), Some(256.0), None);
    assert_eq!(SaveInfo::from_members(&members), Err(MetadataError::Field));
    let mut members = five_members();
    members[2] = member("gold", Some(4294967295), None, None);
    assert_eq!(SaveInfo::from_members(&members).unwrap().gold, 4294967295);
    members[2] = member("gold", Some(4294967296), None, None);
    assert_eq!(SaveInfo::from_members(&members), Err(MetadataError::Field));
    let mut members = five_members();
    members[3] = member("gameMode", Some(256), None, None);
    assert_eq!(SaveInfo::from_members(&members), Err(MetadataError::Field));
}

#[test]
fn from_payload_reads_keys_as_json_writes_them() {
    let text = br#"{ "level": 3, "playTime": 1e2, "gold": 0, "gameMode": 2,
        "atSceneGuid": "a\"b", "lastPos": {"level": 9}, "tags": ["gold", 5] }
    "#;
    let info = SaveInfo::from_payload(text).unwrap();
    assert_eq!(info.level, 3);
    assert_eq!(f64::from_bits(info.playtime), 100.0);
    assert_eq!(info.gold, 0);
    assert_eq!(info.gamemode, 2);
    assert_eq!(info.atsceneguid, "a\"b");
}

#[test]
fn from_payload_refuses_null_and_exponents_for_whole_numbers() {
    let null_scene =
        br#"{"level":1,"playTime":1.5,"gold":2,"gameMode":0,"atSceneGuid":null}"#;
    assert_eq!(SaveInfo::from_payload(null_scene), Err(MetadataError::Field));
    let gold_exponent =
        br#"{"level":1,"playTime":1.5,"gold":1e3,"gameMode":0,"atSceneGuid":"x"}"#;
    assert_eq!(SaveInfo::from_payload(gold_exponent), Err(MetadataError::Field));
    let null_time = br#"{"level":1,"playTime":null,"gold":2,"gameMode":0,"atSceneGuid":"x"}"#;
    assert_eq!(SaveInfo::from_payload(null_time), Err(MetadataError::Field));
}

#[test]
fn from_payload_needs_valid_utf8() {
    let mut text = br#"{"level":1,"playTime":1.5,"gold":2,"gameMode":0,"atSceneGuid":"x"}"#.to_vec();
    assert!(SaveInfo::from_payload(&text).is_ok());
    let at = text.len() - 3;
    text[at] = 0xff;
    assert_eq!(SaveInfo::from_payload(&text), Err(MetadataError::Payload));
}
