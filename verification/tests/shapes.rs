use catalog_mirror::brightcove::analytics;
use catalog_mirror::brightcove::{AccessTokenResponse, PlayerResponse, Video, VideoCustomFields};
use serde_json::Value;

fn text(value: &Value) -> String {
    value.as_str().unwrap().to_string()
}

fn optional_text(value: &Value) -> Option<String> {
    value.as_str().map(|text| text.to_string())
}

fn number(value: &Value) -> u32 {
    value.as_u64().unwrap() as u32
}

fn report_of(value: &Value) -> analytics::VideosResponse {
    analytics::VideosResponse {
        item_count: number(&value["item_count"]),
        items: value["items"]
            .as_array()
            .unwrap()
            .iter()
            .map(|entry| analytics::Video {
                video: optional_text(&entry["video"]),
                video_view: number(&entry["video_view"]),
            })
            .collect(),
    }
}

fn page_of(value: &Value) -> PlayerResponse {
    PlayerResponse {
        count: number(&value["count"]),
        videos: value["videos"]
            .as_array()
            .unwrap()
            .iter()
            .map(|video| Video {
                id: text(&video["id"]),
                name: text(&video["name"]),
                thumbnail: text(&video["thumbnail"]),
                custom_fields: VideoCustomFields {
                    numero_corsa: text(&video["custom_fields"]["numero_corsa"]),
                    data: text(&video["custom_fields"]["data"]),
                    tipologia: optional_text(&video["custom_fields"]["tipologia"]),
                    cavalli: optional_text(&video["custom_fields"]["cavalli"]),
                    fantini: optional_text(&video["custom_fields"]["fantini"]),
                    primo: optional_text(&video["custom_fields"]["primo"]),
                    secondo: optional_text(&video["custom_fields"]["secondo"]),
                    terzo: optional_text(&video["custom_fields"]["terzo"]),
                    ippodromo: text(&video["custom_fields"]["ippodromo"]),
                },
                video_views: video["video_views"].as_u64().map(|views| views as u32),
            })
            .collect(),
    }
}

#[test]
fn deserialize_analytics_video() {
    let src = r#" {
	"item_count": 49,
	"items": [{
		"video": "v1_id",
		"video_view": 1
	}, {
		"video": "v2_id",
		"video_view": 2
	},{
		"video": null,
		"video_view": 2
	}],
	"summary": {
		"video_view": 187
	}
} "#;

    let item: analytics::VideosResponse = report_of(&serde_json::from_str(src).unwrap());

    assert_eq!(
        item,
        analytics::VideosResponse {
            item_count: 49,
            items: vec![
                analytics::Video {
                    video: Some("v1_id".to_string()),
                    video_view: 1,
                },
                analytics::Video {
                    video: Some("v2_id".to_string()),
                    video_view: 2,
                },
                analytics::Video {
                    video: None,
                    video_view: 2,
                }
            ]
        }
    );
}

#[test]
fn deserialize_player_response() {
    let src = r#"
    {
        "count": 444,
        "videos": [
        {
            "thumbnail": "https://.../image.jpg",
            "custom_fields": {
                "categorie": "FIT",
                "cavalli": "CLELIA DEI DALTRI,CICLONE TAV",
                "data": "2022/03/20",
                "fantini": "C.PISCUOGLIO,A.DI NARDO,E.BELLEI,E.LOCCISANO",
                "ippodromo": "FIRENZE",
                "numero_corsa": "02",
                "primo": "CASPIAN PLAY FONT",
                "secondo": "CICLONE TAV",
                "terzo": "CAPITAN SPAV",
                "tipologia": "TROTTO"
            },
            "name": "PR. LURABO BLUE",
            "id": "6301819598001",
                "video_views": 1
        }
        ]
    }
"#;

    let video_response: PlayerResponse = page_of(&serde_json::from_str(src).unwrap());

    assert_eq!(
        video_response,
        PlayerResponse {
            count: 444,
            videos: vec![Video {
                id: "6301819598001".to_string(),
                name: "PR. LURABO BLUE".to_string(),
                thumbnail: "https://.../image.jpg".to_string(),
                custom_fields: VideoCustomFields {
                    numero_corsa: "02".to_string(),
                    data: "2022/03/20".to_string(),
                    tipologia: Some("TROTTO".to_string()),
                    cavalli: Some("CLELIA DEI DALTRI,CICLONE TAV".to_string()),
                    fantini: Some("C.PISCUOGLIO,A.DI NARDO,E.BELLEI,E.LOCCISANO".to_string()),
                    primo: Some("CASPIAN PLAY FONT".to_string()),
                    secondo: Some("CICLONE TAV".to_string()),
                    terzo: Some("CAPITAN SPAV".to_string()),
                    ippodromo: "FIRENZE".to_string(),
                },
                video_views: Some(1),
            }]
        }
    );
}

#[test]
fn shapes_tell_their_fields_apart() {
    let answer = AccessTokenResponse {
        access_token: "t0".to_string(),
        token_type: "Bearer".to_string(),
        expires_in: 300,
    };
    assert_eq!(answer.clone(), answer);
    let other = AccessTokenResponse {
        access_token: "t1".to_string(),
        token_type: "Bearer".to_string(),
        expires_in: 300,
    };
    assert_ne!(answer, other);
    let entry = analytics::Video { video: None, video_view: 2 };
    assert_eq!(entry.clone(), entry);
    assert_ne!(entry, analytics::Video { video: Some(String::new()), video_view: 2 });
}
