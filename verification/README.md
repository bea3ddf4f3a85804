# Roku

Roku TVs and Roku players, over ECP on port 8060: a driver whose logic is verified with Verus.

One library, two drivers. A Roku TV is two things, a streamer and a display, so it carries both a
`media_player` and a `tv` proxy: "watch Netflix" goes to one, volume to the other. A player is the
same box without the screen, and the same control code drives both. Nobody is asked which of the
two a box is: setup reads it out of `/query/device-info` before it offers anything, and hands back
`roku.tv` or `roku.player`, whichever the box says it is.

| Module | What it holds |
| --- | --- |
| `text` | searching, splitting and trimming, on texts as sequences of characters |
| `xml`, `documents` | the documents that a box answers with, and that what was written is read back |
| `inputs` | a set's physical inputs: channel ids and connection ids |
| `channels` | the channels of a box, and which of them a spoken name means |
| `json` | JSON values: what is read of them and what is written |
| `host` | what the driver hands its host to do, and what it knows of a box |
| `command`, `event`, `setup` | the driver itself: commands, answers, and the setup of a box |
| `carry` | the state of a setup as JSON, between two steps |
| `laws` | what holds of the driver as a whole |

`app/` is the driver as its host loads it; it turns the host's values into the library's and back.

What is taken on trust stands in `json` and `channels`, each item with what it claims: the values of
`serde_json`, its map that keeps the channels, and the two functions of the standard library by
which names are compared.
