# trawler_mysql

Runs the trawler benchmark (a model of lobste.rs traffic) against MySQL and Soup on EC2.

`src/` is a verified library that decides what is done next, and touches nothing outside itself:

- `setup` says which machines there are and how each gets its programs;
- `campaign` goes through the loads, and at each load through the backends that still keep up;
- `plan` and `trial` give the steps of one trial and what each asks for;
- `rates` picks the target and the achieved rate out of the client's log, and says which decide;
- `command`, `clock`, `text` word commands, file names and messages; `settings` reads the loads;
- `laws` and `names` prove what holds of whole campaigns and of the files they leave behind.

`app/` launches the machines, performs the actions that the library names, and reports back.
Load averages and rates are floating point, so three things about them are decided there: what
their texts stand for, whether the server is overloaded, and whether a backend fell behind. What
follows from either judgement, and from a log without both rates, is decided in the library.
